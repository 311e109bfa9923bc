use xrandr_block::render::{decimal_text, render};
use xrandr_block::{BrightnessRequest, Monitor, Press, Theme, Xrandr, XrandrConfig};

fn config(icons: bool, resolution: bool, step_width: u32) -> XrandrConfig {
    XrandrConfig {
        interval: XrandrConfig::default_interval(),
        icons,
        resolution,
        step_width,
        color_overrides: XrandrConfig::default_color_overrides(),
    }
}

fn theme() -> Theme {
    Theme {
        backlight_full: Some(" B ".to_string()),
        resolution: Some("R".to_string()),
    }
}

fn three() -> Vec<Monitor> {
    vec![
        Monitor::new("eDP-1", 48, "1920x1080"),
        Monitor::new("HDMI-1", 98, "1280x720"),
        Monitor::new("DP-1", 3, "800x600"),
    ]
}

fn block_with(monitors: Vec<Monitor>, step_width: u32) -> Xrandr {
    let mut block = Xrandr::new(config(false, false, step_width), theme(), 7);
    block.update(Some(monitors));
    block
}

#[test]
fn defaults_of_the_settings() {
    assert_eq!(XrandrConfig::default_interval(), 5);
    assert!(XrandrConfig::default_icons());
    assert!(!XrandrConfig::default_resolution());
    assert_eq!(XrandrConfig::default_step_width(), 5);
    assert!(XrandrConfig::default_color_overrides().is_none());
    let zero = XrandrConfig::default();
    assert_eq!(zero.interval, 0);
    assert!(!zero.icons);
    assert!(!zero.resolution);
    assert_eq!(zero.step_width, 0);
    assert!(zero.color_overrides.is_none());
}

#[test]
fn new_block_is_empty() {
    let block = Xrandr::new(config(true, false, 5), theme(), 42);
    assert_eq!(block.id(), 42);
    assert_eq!(block.text(), "");
    assert!(block.monitors().is_empty());
    assert_eq!(block.current_idx(), 0);
    assert_eq!(block.step_width(), 5);
    assert_eq!(block.icon(), "xrandr");
}

#[test]
fn step_width_is_capped_at_fifty() {
    assert_eq!(Xrandr::new(config(true, false, 75), theme(), 1).step_width(), 50);
    assert_eq!(Xrandr::new(config(true, false, 50), theme(), 1).step_width(), 50);
    assert_eq!(Xrandr::new(config(true, false, 51), theme(), 1).step_width(), 50);
    assert_eq!(Xrandr::new(config(true, false, 49), theme(), 1).step_width(), 49);
    assert_eq!(Xrandr::new(config(true, false, 0), theme(), 1).step_width(), 0);
}

#[test]
fn set_brightness_moves_by_step_and_gives_request() {
    let mut m = Monitor::new("eDP-1", 40, "1920x1080");
    let up = m.set_brightness(5);
    assert_eq!(up, BrightnessRequest { output: "eDP-1".to_string(), percent: 45 });
    assert_eq!(m, Monitor::new("eDP-1", 45, "1920x1080"));
    let down = m.set_brightness(-45);
    assert_eq!(down.percent, 0);
    assert_eq!(m.brightness, 0);
}

#[test]
fn decimal_text_of_numbers() {
    assert_eq!(decimal_text(0), "0");
    assert_eq!(decimal_text(7), "7");
    assert_eq!(decimal_text(60), "60");
    assert_eq!(decimal_text(100), "100");
    assert_eq!(decimal_text(1234567890), "1234567890");
    assert_eq!(decimal_text(u32::MAX), "4294967295");
}

#[test]
fn render_plain_without_resolution() {
    let m = Monitor::new("DP-1", 60, "");
    assert_eq!(render(&m, false, false, "B", "R"), "DP-1: 60");
}

#[test]
fn render_all_four_forms() {
    let m = Monitor::new("eDP-1", 80, "1920x1080");
    assert_eq!(render(&m, true, true, "B", "R"), "eDP-1 B 80 R 1920x1080");
    assert_eq!(render(&m, false, true, "B", "R"), "eDP-1: 80 [1920x1080]");
    assert_eq!(render(&m, true, false, "B", "R"), "eDP-1 B 80");
    assert_eq!(render(&m, false, false, "B", "R"), "eDP-1: 80");
    assert_eq!(render(&m, true, true, "", ""), "eDP-1  80  1920x1080");
}

#[test]
fn update_replaces_monitors_and_renders() {
    let mut block = Xrandr::new(config(true, true, 5), theme(), 7);
    assert_eq!(block.update(Some(three())), 5);
    assert_eq!(block.monitors(), &three());
    assert_eq!(block.text(), "eDP-1 B 48 R 1920x1080");
}

#[test]
fn update_without_records_keeps_everything() {
    let mut block = block_with(three(), 5);
    assert_eq!(block.update(None), 5);
    assert_eq!(block.monitors(), &three());
    assert_eq!(block.text(), "eDP-1: 48");
}

#[test]
fn missing_glyphs_are_empty() {
    let bare = Theme { backlight_full: None, resolution: None };
    let mut block = Xrandr::new(config(true, true, 5), bare, 7);
    block.update(Some(three()));
    assert_eq!(block.text(), "eDP-1  48  1920x1080");
}

#[test]
fn primary_click_wraps_from_last_to_first() {
    let mut block = block_with(three(), 5);
    assert_eq!(block.click(7, Press::Primary), None);
    assert_eq!(block.current_idx(), 1);
    assert_eq!(block.text(), "HDMI-1: 98");
    block.click(7, Press::Primary);
    assert_eq!(block.current_idx(), 2);
    block.click(7, Press::Primary);
    assert_eq!(block.current_idx(), 0);
    assert_eq!(block.text(), "eDP-1: 48");
}

#[test]
fn primary_click_on_empty_list_keeps_index() {
    let mut block = Xrandr::new(config(false, false, 5), theme(), 7);
    assert_eq!(block.click(7, Press::Primary), None);
    assert_eq!(block.current_idx(), 0);
    assert_eq!(block.text(), "");
}

#[test]
fn click_for_another_block_is_ignored() {
    let mut block = block_with(three(), 5);
    assert_eq!(block.click(8, Press::Primary), None);
    assert_eq!(block.click(8, Press::ScrollUp), None);
    assert_eq!(block.current_idx(), 0);
    assert_eq!(block.monitors(), &three());
}

#[test]
fn scroll_up_proceeds_at_48_and_is_dropped_at_98() {
    let mut block = block_with(three(), 5);
    assert_eq!(
        block.click(7, Press::ScrollUp),
        Some(BrightnessRequest { output: "eDP-1".to_string(), percent: 53 })
    );
    assert_eq!(block.monitors()[0].brightness, 53);
    assert_eq!(block.text(), "eDP-1: 53");
    block.click(7, Press::Primary);
    assert_eq!(block.click(7, Press::ScrollUp), None);
    assert_eq!(block.monitors()[1].brightness, 98);
    assert_eq!(block.text(), "HDMI-1: 98");
}

#[test]
fn scroll_up_proceeds_at_the_bound() {
    let mut block = block_with(vec![Monitor::new("a", 95, "1x1")], 5);
    assert_eq!(block.click(7, Press::ScrollUp).map(|r| r.percent), Some(100));
    assert_eq!(block.click(7, Press::ScrollUp), None);
    assert_eq!(block.monitors()[0].brightness, 100);
}

#[test]
fn scroll_down_is_dropped_at_3_and_proceeds_at_5() {
    let mut block = block_with(
        vec![Monitor::new("a", 3, "1x1"), Monitor::new("b", 5, "1x1")],
        5,
    );
    assert_eq!(block.click(7, Press::ScrollDown), None);
    assert_eq!(block.monitors()[0].brightness, 3);
    block.click(7, Press::Primary);
    assert_eq!(
        block.click(7, Press::ScrollDown),
        Some(BrightnessRequest { output: "b".to_string(), percent: 0 })
    );
    assert_eq!(block.monitors()[1].brightness, 0);
    assert_eq!(block.text(), "b: 0");
}

#[test]
fn other_press_only_renders() {
    let mut block = block_with(three(), 5);
    assert_eq!(block.click(7, Press::Other), None);
    assert_eq!(block.monitors(), &three());
    assert_eq!(block.text(), "eDP-1: 48");
}

#[test]
fn stale_index_renders_nothing_until_a_click() {
    let mut block = block_with(three(), 5);
    block.click(7, Press::Primary);
    block.click(7, Press::Primary);
    assert_eq!(block.text(), "DP-1: 3");
    block.update(Some(vec![Monitor::new("eDP-1", 10, "1x1")]));
    assert_eq!(block.current_idx(), 2);
    assert_eq!(block.text(), "DP-1: 3");
    assert_eq!(block.click(7, Press::ScrollUp), None);
    block.click(7, Press::Primary);
    assert_eq!(block.current_idx(), 0);
    assert_eq!(block.text(), "eDP-1: 10");
}

#[test]
fn update_with_empty_list_keeps_everything() {
    let mut block = block_with(three(), 5);
    assert_eq!(block.update(Some(Vec::new())), 5);
    assert_eq!(block.monitors(), &three());
    assert_eq!(block.text(), "eDP-1: 48");
}
