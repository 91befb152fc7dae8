//! The levels of the log on the serial line.

use vstd::prelude::*;

verus! {

/// How grave a line of the log is.
#[derive(Debug, Clone, Copy, PartialEq, Eq, Structural)]
pub enum SerialLoggingLevel {
    Debug,
    Info,
    Warning,
    Error,
    Panic,
}

impl SerialLoggingLevel {
    /// The name of the level as it stands in the log.
    pub open spec fn name(&self) -> Seq<char> {
        match self {
            Self::Debug => "DEBUG"@,
            Self::Info => "INFO"@,
            Self::Warning => "WARNING"@,
            Self::Error => "ERROR"@,
            Self::Panic => "PANIC"@,
        }
    }

    /// The name of the level as it stands in the log.
    pub fn as_str(&self) -> (name: &'static str)
        ensures
            name@ == self.name(),
    {
        match self {
            Self::Debug => "DEBUG",
            Self::Info => "INFO",
            Self::Warning => "WARNING",
            Self::Error => "ERROR",
            Self::Panic => "PANIC",
        }
    }

    /// The level of a line of the given severity, counted from 1 for an
    /// error to 5 for a trace: warnings and errors keep their level,
    /// traces are logged with the debug lines. `None` for another number.
    pub fn from_severity(severity: u8) -> (level: Option<Self>)
        ensures
            level == match severity {
                1 => Some(Self::Error),
                2 => Some(Self::Warning),
                3 => Some(Self::Info),
                4 => Some(Self::Debug),
                5 => Some(Self::Debug),
                _ => None,
            },
    {
        match severity {
            1 => Some(Self::Error),
            2 => Some(Self::Warning),
            3 => Some(Self::Info),
            4 => Some(Self::Debug),
            5 => Some(Self::Debug),
            _ => None,
        }
    }
}

} // verus!
