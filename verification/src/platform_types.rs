//! GPU state types shared with clients on Windows, where the native AMD
//! sysfs representations are not available.
use vstd::prelude::*;

verus! {

/// The kind of a power level table.
#[derive(Clone, Copy, Debug, PartialEq, Eq, Hash, Structural)]
pub enum PowerLevelKind {
    Core,
    Memory,
    Pcie,
}

/// The performance level that a GPU runs at.
#[derive(Clone, Copy, Debug, PartialEq, Eq, Structural)]
pub enum PerformanceLevel {
    Auto,
    Low,
    High,
    Manual,
    ProfileStandard,
    ProfileMinSclk,
    ProfileMinMclk,
    ProfilePeak,
}

/// The current fan value and, where the hardware has one, its allowed range.
#[derive(Clone, Copy, Debug, Default, PartialEq, Eq)]
pub struct FanInfo {
    pub current: u32,
    pub allowed_range: Option<(u32, u32)>,
}

} // verus!
