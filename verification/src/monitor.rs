//! One display output, and the request that changes its brightness.

use vstd::prelude::*;

verus! {

/// One display output as the diagnostics describe it.
#[derive(Debug, Clone, PartialEq, Eq)]
pub struct Monitor {
    /// The output's name, such as a connector label.
    pub name: String,
    /// Brightness in percent.
    pub brightness: u32,
    /// The resolution, as a width, an `x` and a height.
    pub resolution: String,
}

/// What a monitor record means: its texts as sequences of characters.
pub ghost struct MonitorModel {
    pub name: Seq<char>,
    pub brightness: u32,
    pub resolution: Seq<char>,
}

impl View for Monitor {
    type V = MonitorModel;

    open spec fn view(&self) -> MonitorModel {
        MonitorModel { name: self.name@, brightness: self.brightness, resolution: self.resolution@ }
    }
}

/// The models of a list of records.
pub open spec fn models(v: Seq<Monitor>) -> Seq<MonitorModel> {
    Seq::new(v.len(), |i: int| v[i]@)
}

/// An instruction to set one output to a brightness, in percent. Whoever
/// dispatches it turns the percentage into a fraction of one.
#[derive(Debug, Clone, PartialEq, Eq)]
pub struct BrightnessRequest {
    pub output: String,
    pub percent: u32,
}

impl Monitor {
    pub fn new(name: &str, brightness: u32, resolution: &str) -> (m: Monitor)
        ensures
            m@ == (MonitorModel { name: name@, brightness, resolution: resolution@ }),
    {
        Monitor {
            name: String::from_str(name),
            brightness,
            resolution: String::from_str(resolution),
        }
    }

    /// Moves the brightness by `step` and returns the request to dispatch.
    /// The record holds the requested value at once, whatever becomes of the
    /// request. Nothing is clamped: the caller keeps the sum in range.
    pub fn set_brightness(&mut self, step: i32) -> (request: BrightnessRequest)
        requires
            0 <= old(self).brightness + step <= u32::MAX,
        ensures
            final(self).brightness == old(self).brightness + step,
            final(self).name@ == old(self).name@,
            final(self).resolution@ == old(self).resolution@,
            request.output@ == old(self).name@,
            request.percent == old(self).brightness + step,
    {
        let sum: i64 = self.brightness as i64 + step as i64;
        let percent: u32 = sum as u32;
        self.brightness = percent;
        BrightnessRequest { output: self.name.clone(), percent }
    }
}

} // verus!
