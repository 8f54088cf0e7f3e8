//! Logging options.
use vstd::prelude::*;

verus! {

/// The level (a filter directive such as `off`, `info` or `autosaver=debug`)
/// at which logs are shown.
#[derive(Debug)]
pub struct LogOptions<'a> {
    level: &'a str,
}

impl<'a> LogOptions<'a> {
    /// The level of the logs.
    pub closed spec fn level_view(&self) -> Seq<char> {
        self.level@
    }

    /// Options that show logs at `level`.
    pub fn new(level: &'a str) -> (res: Self)
        ensures
            res.level_view() == level@,
    {
        LogOptions { level }
    }

    /// The level of the logs.
    pub fn level(&self) -> (res: &'a str)
        ensures
            res@ == self.level_view(),
    {
        self.level
    }
}

} // verus!
