//! The block itself: the list of monitors, which of them is shown, and what
//! a refresh or a pointer event does to both.

use crate::config::{XrandrConfig, MAX_STEP_WIDTH};
use crate::monitor::{models, BrightnessRequest, Monitor, MonitorModel};
use crate::render::{render, rendered};
use crate::text::{trim, trim_text};
use vstd::prelude::*;

verus! {

/// The two glyphs that the block shows, as the theme gives them. A glyph that
/// the theme lacks is `None`.
#[derive(Debug, Clone)]
pub struct Theme {
    pub backlight_full: Option<String>,
    pub resolution: Option<String>,
}

/// What a pointer event asks for, after the configured mapping of scroll
/// directions.
#[derive(Debug, Clone, Copy, PartialEq, Eq, Structural)]
pub enum Press {
    Primary,
    ScrollUp,
    ScrollDown,
    Other,
}

/// The block: the monitors of the last refresh, which of them is shown, and
/// the text shown for it.
pub struct Xrandr {
    id: u64,
    text: String,
    update_interval: u64,
    monitors: Vec<Monitor>,
    icons: bool,
    resolution: bool,
    step_width: u32,
    current_idx: usize,
    brightness_icon: String,
    res_icon: String,
}

/// What a block is, for its contracts.
pub ghost struct XrandrModel {
    pub id: u64,
    pub text: Seq<char>,
    pub update_interval: u64,
    pub monitors: Seq<MonitorModel>,
    pub icons: bool,
    pub resolution: bool,
    pub step_width: u32,
    pub current_idx: usize,
    pub brightness_icon: Seq<char>,
    pub res_icon: Seq<char>,
}

/// The glyph to show: the theme's, trimmed, or nothing where it has none.
pub open spec fn glyph(entry: Option<String>) -> Seq<char> {
    match entry {
        Some(s) => trim(s@),
        None => Seq::empty(),
    }
}

/// The index after `idx` in a list of `len` items, going round: from the last
/// item, and from an index beyond the list, to the first. An empty list
/// leaves the index as it is.
pub open spec fn next_index(idx: usize, len: nat) -> usize {
    if len == 0 {
        idx
    } else if idx + 1 < len {
        (idx + 1) as usize
    } else {
        0
    }
}

/// The state after rendering: the text is that of the selected monitor.
/// Where the index selects none, the text stays.
pub open spec fn displayed(s: XrandrModel) -> XrandrModel {
    if s.current_idx < s.monitors.len() {
        XrandrModel {
            text: rendered(
                s.monitors[s.current_idx as int],
                s.icons,
                s.resolution,
                s.brightness_icon,
                s.res_icon,
            ),
            ..s
        }
    } else {
        s
    }
}

/// Whether a press changes the brightness of the selected monitor: a scroll
/// up while the brightness is at most a hundred less the step, a scroll down
/// while it is at least the step.
pub open spec fn adjusts(s: XrandrModel, press: Press) -> bool {
    &&& s.current_idx < s.monitors.len()
    &&& match press {
        Press::ScrollUp => s.monitors[s.current_idx as int].brightness <= 100 - s.step_width,
        Press::ScrollDown => s.monitors[s.current_idx as int].brightness >= s.step_width,
        _ => false,
    }
}

/// The brightness that a press which adjusts asks for.
pub open spec fn adjusted(s: XrandrModel, press: Press) -> int {
    let now = s.monitors[s.current_idx as int].brightness;
    if press == Press::ScrollUp {
        now + s.step_width
    } else {
        now - s.step_width
    }
}

/// The state after a press, before rendering.
pub open spec fn pressed(s: XrandrModel, press: Press) -> XrandrModel {
    if press == Press::Primary {
        XrandrModel { current_idx: next_index(s.current_idx, s.monitors.len()), ..s }
    } else if adjusts(s, press) {
        let m = s.monitors[s.current_idx as int];
        XrandrModel {
            monitors: s.monitors.update(
                s.current_idx as int,
                MonitorModel { brightness: adjusted(s, press) as u32, ..m },
            ),
            ..s
        }
    } else {
        s
    }
}

fn glyph_text(entry: &Option<String>) -> (r: String)
    ensures
        r@ == glyph(*entry),
{
    match entry {
        Some(s) => trim_text(s.as_str()),
        None => String::new(),
    }
}

impl View for Xrandr {
    type V = XrandrModel;

    closed spec fn view(&self) -> XrandrModel {
        XrandrModel {
            id: self.id,
            text: self.text@,
            update_interval: self.update_interval,
            monitors: models(self.monitors@),
            icons: self.icons,
            resolution: self.resolution,
            step_width: self.step_width,
            current_idx: self.current_idx,
            brightness_icon: self.brightness_icon@,
            res_icon: self.res_icon@,
        }
    }
}

impl Xrandr {
    #[verifier::type_invariant]
    spec fn capped(self) -> bool {
        self.step_width <= MAX_STEP_WIDTH
    }

    /// A block without monitors that shows nothing yet. A step width above
    /// fifty is taken as fifty.
    pub fn new(block_config: XrandrConfig, theme: Theme, id: u64) -> (block: Xrandr)
        ensures
            block@ == (XrandrModel {
                id,
                text: Seq::empty(),
                update_interval: block_config.interval,
                monitors: Seq::empty(),
                icons: block_config.icons,
                resolution: block_config.resolution,
                step_width: if block_config.step_width > 50 {
                    50u32
                } else {
                    block_config.step_width
                },
                current_idx: 0,
                brightness_icon: glyph(theme.backlight_full),
                res_icon: glyph(theme.resolution),
            }),
    {
        let mut step_width = block_config.step_width;
        if step_width > MAX_STEP_WIDTH {
            step_width = MAX_STEP_WIDTH;
        }
        let block = Xrandr {
            id,
            text: String::new(),
            update_interval: block_config.interval,
            monitors: Vec::new(),
            icons: block_config.icons,
            resolution: block_config.resolution,
            step_width,
            current_idx: 0,
            brightness_icon: glyph_text(&theme.backlight_full),
            res_icon: glyph_text(&theme.resolution),
        };
        assert(block@.monitors =~= Seq::empty());
        block
    }

    /// Renders the selected monitor into the block's text.
    pub fn display(&mut self)
        ensures
            final(self)@ == displayed(old(self)@),
    {
        proof {
            use_type_invariant(&*self);
        }
        if self.current_idx < self.monitors.len() {
            self.text = render(
                &self.monitors[self.current_idx],
                self.icons,
                self.resolution,
                self.brightness_icon.as_str(),
                self.res_icon.as_str(),
            );
        }
    }

    /// Takes the outcome of a refresh. A list that holds records replaces the
    /// monitors whole, and the block is rendered anew; the selection stays as
    /// it is, also where it now selects none. No list, or an empty one, leaves
    /// everything as it was. Returns the seconds until the next refresh.
    pub fn update(&mut self, refreshed: Option<Vec<Monitor>>) -> (next: u64)
        ensures
            next == old(self)@.update_interval,
            final(self)@ == if refreshed is Some && refreshed->Some_0.len() > 0 {
                displayed(XrandrModel { monitors: models(refreshed->Some_0@), ..old(self)@ })
            } else {
                old(self)@
            },
    {
        proof {
            use_type_invariant(&*self);
        }
        match refreshed {
            Some(found) => {
                if found.len() > 0 {
                    self.monitors = found;
                    self.display();
                }
            },
            None => {},
        }
        self.update_interval
    }

    /// Handles a pointer event aimed at the block `target`. An event for
    /// another block changes nothing. The primary button selects the next
    /// monitor, going round; a scroll moves the brightness of the selected
    /// monitor by the step width while the result stays between zero and a
    /// hundred, and the request to dispatch is returned. Then the block is
    /// rendered anew.
    pub fn click(&mut self, target: u64, press: Press) -> (request: Option<BrightnessRequest>)
        ensures
            target != old(self)@.id ==> final(self)@ == old(self)@ && request is None,
            target == old(self)@.id ==> final(self)@ == displayed(pressed(old(self)@, press)),
            target == old(self)@.id ==> (request is Some <==> adjusts(old(self)@, press)),
            request is Some ==> request->Some_0.output@ == old(self)@.monitors[old(
                self,
            )@.current_idx as int].name && request->Some_0.percent == adjusted(old(self)@, press),
    {
        proof {
            use_type_invariant(&*self);
        }
        if target != self.id {
            return None;
        }
        let mut request: Option<BrightnessRequest> = None;
        let len: usize = self.monitors.len();
        let idx: usize = self.current_idx;
        match press {
            Press::Primary => {
                if len > 0 {
                    if idx < len - 1 {
                        self.current_idx = idx + 1;
                    } else {
                        self.current_idx = 0;
                    }
                }
            },
            Press::ScrollUp => {
                if idx < len && self.monitors[idx].brightness <= 100 - self.step_width {
                    let ghost before = models(self.monitors@);
                    let r = self.monitors[idx].set_brightness(self.step_width as i32);
                    assert(models(self.monitors@) =~= before.update(idx as int, self.monitors[idx as int]@));
                    request = Some(r);
                }
            },
            Press::ScrollDown => {
                if idx < len && self.monitors[idx].brightness >= self.step_width {
                    let ghost before = models(self.monitors@);
                    let r = self.monitors[idx].set_brightness(-(self.step_width as i32));
                    assert(models(self.monitors@) =~= before.update(idx as int, self.monitors[idx as int]@));
                    request = Some(r);
                }
            },
            Press::Other => {},
        }
        self.display();
        request
    }

    /// The tag of the icon that goes with the text, always the same.
    pub fn icon(&self) -> (r: &'static str)
        ensures
            r@ == "xrandr"@,
    {
        "xrandr"
    }

    pub fn id(&self) -> (r: u64)
        ensures
            r == self@.id,
    {
        self.id
    }

    /// The text that the block shows.
    pub fn text(&self) -> (r: &str)
        ensures
            r@ == self@.text,
    {
        self.text.as_str()
    }

    /// The monitors of the last refresh that found any.
    pub fn monitors(&self) -> (r: &Vec<Monitor>)
        ensures
            models(r@) == self@.monitors,
    {
        &self.monitors
    }

    /// The index of the monitor that is shown.
    pub fn current_idx(&self) -> (r: usize)
        ensures
            r == self@.current_idx,
    {
        self.current_idx
    }

    /// The step by which a scroll event changes the brightness: in every
    /// state of a block it is at most fifty.
    pub fn step_width(&self) -> (r: u32)
        ensures
            r == self@.step_width,
            r <= 50,
    {
        proof {
            use_type_invariant(self);
        }
        self.step_width
    }
}

/// On a list that is not empty the primary button always selects a monitor
/// of the list: the next one, and from the last one the first.
pub proof fn lemma_selection_goes_round(s: XrandrModel)
    requires
        0 < s.monitors.len() <= usize::MAX,
    ensures
        pressed(s, Press::Primary).current_idx < s.monitors.len(),
        s.current_idx + 1 < s.monitors.len() ==> pressed(s, Press::Primary).current_idx
            == s.current_idx + 1,
        s.current_idx + 1 == s.monitors.len() ==> pressed(s, Press::Primary).current_idx == 0,
{
}

/// No press takes a brightness out of the range from zero to a hundred, and
/// none changes another monitor than the selected one.
pub proof fn lemma_press_keeps_range(s: XrandrModel, press: Press)
    requires
        s.step_width <= 50,
        forall|i: int| 0 <= i < s.monitors.len() ==> (#[trigger] s.monitors[i]).brightness <= 100,
    ensures
        pressed(s, press).monitors.len() == s.monitors.len(),
        forall|i: int|
            0 <= i < s.monitors.len() ==> (#[trigger] pressed(s, press).monitors[i]).brightness
                <= 100,
        forall|i: int|
            0 <= i < s.monitors.len() && i != s.current_idx ==> #[trigger] pressed(
                s,
                press,
            ).monitors[i] == s.monitors[i],
{
    if adjusts(s, press) {
        assert(s.monitors[s.current_idx as int].brightness <= 100);
    }
}

/// A scroll that would pass a hundred, or fall below zero, changes nothing.
pub proof fn lemma_scroll_out_of_range_is_dropped(s: XrandrModel, press: Press)
    requires
        s.current_idx < s.monitors.len(),
        s.step_width <= 50,
        press == Press::ScrollUp && s.monitors[s.current_idx as int].brightness + s.step_width > 100
            || press == Press::ScrollDown && s.monitors[s.current_idx as int].brightness
            < s.step_width,
    ensures
        pressed(s, press) == s,
{
}

} // verus!
