//! Levels: their names, their order, and the process-wide maximum level of
//! the logging facade.

use crate::text::same_text;
use vstd::prelude::*;
use vstd::string::*;

verus! {

/// The level of an event, and the level that a sink asks for at least.
/// `Off` is no level of an event: as a minimum it lets nothing through.
#[derive(Clone, Copy, PartialEq, Eq, Structural, Debug)]
pub enum Level {
    Off,
    Error,
    Warn,
    Info,
    Debug,
    Trace,
}

/// The levels under the name that callers know them by.
#[allow(non_camel_case_types)]
pub type level = Level;

/// The rank of a level, from `Trace` at the bottom to `Off` at the top.
pub open spec fn severity(level: Level) -> nat {
    match level {
        Level::Trace => 0,
        Level::Debug => 1,
        Level::Info => 2,
        Level::Warn => 3,
        Level::Error => 4,
        Level::Off => 5,
    }
}

/// Whether an event of `level` passes the minimum `least`.
pub open spec fn at_least(level: Level, least: Level) -> bool {
    severity(level) >= severity(least)
}

/// The level that a name in lower case stands for; `Debug` where it is the
/// name of no level.
pub open spec fn level_named(lower: Seq<char>) -> Level {
    if lower == "debug"@ {
        Level::Debug
    } else if lower == "trace"@ {
        Level::Trace
    } else if lower == "info"@ {
        Level::Info
    } else if lower == "warn"@ {
        Level::Warn
    } else if lower == "error"@ {
        Level::Error
    } else if lower == "off"@ {
        Level::Off
    } else {
        Level::Debug
    }
}

/// The label of a level in a line of the log.
pub open spec fn label_of(level: Level) -> Seq<char> {
    match level {
        Level::Off => "OFF"@,
        Level::Error => "ERROR"@,
        Level::Warn => "WARN"@,
        Level::Info => "INFO"@,
        Level::Debug => "DEBUG"@,
        Level::Trace => "TRACE"@,
    }
}

/// What `str::to_lowercase` gives for a text.
pub uninterp spec fn lowercase_of(text: Seq<char>) -> Seq<char>;

/// `str::to_lowercase`: the text in lower case as Unicode defines it, a
/// function of the text alone.
#[verifier::external_body]
fn lowercase(text: &str) -> (lower: String)
    ensures
        lower@ == lowercase_of(text@),
{
    text.to_lowercase()
}

/// `log::set_max_level`: stores the level as the facade's process-wide
/// maximum. It returns nothing, and nothing is claimed of it.
#[verifier::external_body]
fn set_max_level(level: Level) {
    log::set_max_level(
        match level {
            Level::Off => log::LevelFilter::Off,
            Level::Error => log::LevelFilter::Error,
            Level::Warn => log::LevelFilter::Warn,
            Level::Info => log::LevelFilter::Info,
            Level::Debug => log::LevelFilter::Debug,
            Level::Trace => log::LevelFilter::Trace,
        },
    )
}

impl Level {
    /// The label of the level.
    pub fn label(&self) -> (text: &'static str)
        ensures
            text@ == label_of(*self),
    {
        match self {
            Level::Off => "OFF",
            Level::Error => "ERROR",
            Level::Warn => "WARN",
            Level::Info => "INFO",
            Level::Debug => "DEBUG",
            Level::Trace => "TRACE",
        }
    }

    /// Makes the level the process-wide maximum level of the logging
    /// facade, and hands it back.
    pub fn install(self) -> (level: Level)
        ensures
            level == self,
    {
        set_max_level(self);
        self
    }

    /// Tests whether an event of this level passes the minimum `least`.
    pub fn passes(&self, least: Level) -> (yes: bool)
        ensures
            yes == at_least(*self, least),
    {
        let mine: u8 = rank(*self);
        let bound: u8 = rank(least);
        mine >= bound
    }
}

fn rank(level: Level) -> (r: u8)
    ensures
        r == severity(level),
{
    match level {
        Level::Trace => 0,
        Level::Debug => 1,
        Level::Info => 2,
        Level::Warn => 3,
        Level::Error => 4,
        Level::Off => 5,
    }
}

/// The level that a name already in lower case stands for.
pub fn level_of_lowercase(lower: &str) -> (level: Level)
    ensures
        level == level_named(lower@),
{
    if same_text(lower, "debug") {
        Level::Debug
    } else if same_text(lower, "trace") {
        Level::Trace
    } else if same_text(lower, "info") {
        Level::Info
    } else if same_text(lower, "warn") {
        Level::Warn
    } else if same_text(lower, "error") {
        Level::Error
    } else if same_text(lower, "off") {
        Level::Off
    } else {
        Level::Debug
    }
}

/// The level that a name stands for, whatever its case; `Debug` where it
/// is the name of no level.
pub fn get_level(name: &str) -> (level: Level)
    ensures
        level == level_named(lowercase_of(name@)),
{
    let lower = lowercase(name);
    level_of_lowercase(lower.as_str())
}

/// Makes the level of that name the process-wide maximum level of the
/// logging facade, and returns it.
pub fn set_level(name: &str) -> (level: Level)
    ensures
        level == level_named(lowercase_of(name@)),
{
    get_level(name).install()
}

} // verus!
