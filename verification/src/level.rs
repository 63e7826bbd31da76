//! Log severity levels as they travel on the wire.
//!
//! Levels compare by verbosity: a *higher* severity has a *smaller*
//! verbosity number, so an `Error` record passes every filter that an
//! `Info` record passes.

use vstd::prelude::*;

verus! {

/// A record's severity level.
#[derive(Clone, Copy, PartialEq, Eq, Hash, Debug, Structural)]
pub enum Level {
    Trace,
    Debug,
    Info,
    Warning,
    Error,
}

impl Level {
    /// The wire byte for this level; also its verbosity rank.
    pub open spec fn spec_byte(self) -> u8 {
        match self {
            Level::Trace => 0,
            Level::Debug => 1,
            Level::Info => 2,
            Level::Warning => 3,
            Level::Error => 4,
        }
    }

    /// How verbose the level is: `Trace` is the most verbose, `Error` the
    /// least. Higher severity means a smaller verbosity.
    pub open spec fn verbosity(self) -> int {
        4 - self.spec_byte()
    }

    /// The wire byte for this level.
    pub fn to_byte(self) -> (r: u8)
        ensures
            r == self.spec_byte(),
    {
        match self {
            Level::Trace => 0,
            Level::Debug => 1,
            Level::Info => 2,
            Level::Warning => 3,
            Level::Error => 4,
        }
    }

    /// What `from_byte` returns.
    pub open spec fn spec_from_byte(b: u8) -> Option<Level> {
        if b == 0 {
            Some(Level::Trace)
        } else if b == 1 {
            Some(Level::Debug)
        } else if b == 2 {
            Some(Level::Info)
        } else if b == 3 {
            Some(Level::Warning)
        } else if b == 4 {
            Some(Level::Error)
        } else {
            None
        }
    }

    /// Encoding a level and decoding the byte yields the level again.
    pub proof fn lemma_byte_roundtrip(l: Level)
        ensures
            Self::spec_from_byte(l.spec_byte()) == Some(l),
    {
    }

    /// Decodes a wire byte; bytes outside the level range are refused.
    pub fn from_byte(b: u8) -> (r: Option<Level>)
        ensures
            r == Self::spec_from_byte(b),
            match r {
                Some(l) => l.spec_byte() == b,
                None => b > 4,
            },
    {
        match b {
            0 => Some(Level::Trace),
            1 => Some(Level::Debug),
            2 => Some(Level::Info),
            3 => Some(Level::Warning),
            4 => Some(Level::Error),
            _ => None,
        }
    }

    /// Whether a record at this level passes a filter hint. A missing hint
    /// lets everything through; otherwise the record must be at most as
    /// verbose as the hint. Severity compares inverted: `Error` (highest
    /// severity, lowest verbosity) passes every hint.
    pub fn enabled_for(self, hint: Option<Level>) -> (r: bool)
        ensures
            r == match hint {
                None => true,
                Some(h) => self.verbosity() <= h.verbosity(),
            },
    {
        match hint {
            None => true,
            Some(h) => self.to_byte() >= h.to_byte(),
        }
    }
}

} // verus!
