//! The block's settings.

use std::collections::BTreeMap;
use vstd::prelude::*;

verus! {

/// The largest step by which one scroll event changes the brightness.
pub const MAX_STEP_WIDTH: u32 = 50;

/// What a user can set for the block.
#[derive(Debug, Clone)]
pub struct XrandrConfig {
    /// Update interval in seconds.
    pub interval: u64,
    /// Show icons for brightness and resolution.
    pub icons: bool,
    /// Show the resolution of the selected output.
    pub resolution: bool,
    /// The step by which the brightness of the selected output is raised or
    /// lowered. A step above fifty is taken as fifty.
    pub step_width: u32,
    /// Colours that replace those of the theme.
    pub color_overrides: Option<BTreeMap<String, String>>,
}

impl XrandrConfig {
    pub fn default_interval() -> (r: u64)
        ensures
            r == 5,
    {
        5
    }

    pub fn default_icons() -> (r: bool)
        ensures
            r,
    {
        true
    }

    pub fn default_resolution() -> (r: bool)
        ensures
            !r,
    {
        false
    }

    pub fn default_step_width() -> (r: u32)
        ensures
            r == 5,
    {
        5
    }

    pub fn default_color_overrides() -> (r: Option<BTreeMap<String, String>>)
        ensures
            r is None,
    {
        None
    }
}

impl Default for XrandrConfig {
    /// The settings with every field at its type's zero value. The values that
    /// a missing setting takes are those of the `default_` functions.
    fn default() -> (r: XrandrConfig)
        ensures
            r.interval == 0,
            !r.icons,
            !r.resolution,
            r.step_width == 0,
            r.color_overrides is None,
    {
        XrandrConfig {
            interval: 0,
            icons: false,
            resolution: false,
            step_width: 0,
            color_overrides: None,
        }
    }
}

} // verus!
