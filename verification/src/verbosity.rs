//! How talkative the agent is, from the switches given on its command line.

use vstd::prelude::*;

verus! {

/// The most detailed kind of message that is still written.
#[derive(Debug, Clone, Copy, PartialEq, Eq, Structural)]
pub enum LogLevel {
    Off,
    Error,
    Warn,
    Info,
    Debug,
    Trace,
}

/// The level of a number: 0 is `Off`, 3 is `Info`, 5 and more is `Trace`.
pub open spec fn level_of(step: int) -> LogLevel {
    if step <= 0 {
        LogLevel::Off
    } else if step == 1 {
        LogLevel::Error
    } else if step == 2 {
        LogLevel::Warn
    } else if step == 3 {
        LogLevel::Info
    } else if step == 4 {
        LogLevel::Debug
    } else {
        LogLevel::Trace
    }
}

/// The step that the switches give: from 3, up by `verbose` but not over
/// 255, then down by `quiet` but not under 0.
pub open spec fn step_for(verbose: u8, quiet: u8) -> int {
    let raised: int = if 3 + verbose > 255 {
        255
    } else {
        3 + verbose
    };
    if raised - quiet < 0 {
        0
    } else {
        raised - quiet
    }
}

/// The level for `verbose` switches that ask for more and `quiet` switches
/// that ask for less. Without any the level is `Info`.
pub fn log_level(verbose: u8, quiet: u8) -> (level: LogLevel)
    ensures
        level == level_of(step_for(verbose, quiet)),
{
    let base: u8 = 3;
    let step: u8 = base.saturating_add(verbose).saturating_sub(quiet);
    if step == 0 {
        LogLevel::Off
    } else if step == 1 {
        LogLevel::Error
    } else if step == 2 {
        LogLevel::Warn
    } else if step == 3 {
        LogLevel::Info
    } else if step == 4 {
        LogLevel::Debug
    } else {
        LogLevel::Trace
    }
}

} // verus!
