//! The subsystem's configuration model, with its documented defaults.
//!
//! Every setting is optional in the loaded form; the getters fill in the
//! documented default. Reading and merging the configuration sources is
//! the embedding application's business — this model only settles what a
//! missing value means.

use vstd::prelude::*;
use crate::level::Level;

verus! {

/// Default TCP port the profiler listens on.
pub const DEFAULT_PORT: u16 = 4026;

/// Default row cap per span per recording window.
pub const DEFAULT_MAX_ROWS: u32 = 1000000;

/// Default floor, in milliseconds, for the aggregate push rate.
pub const DEFAULT_MIN_PERIOD: u16 = 200;

/// Which subsystem to run.
#[derive(Clone, Copy, PartialEq, Eq, Debug, Structural)]
pub enum Mode {
    Logger,
    Profiler,
    Disabled,
}

/// Console color handling.
#[derive(Clone, Copy, PartialEq, Eq, Debug, Structural)]
pub enum Color {
    Auto,
    Always,
    Never,
}

/// Console sink settings.
pub struct Console {
    pub color: Option<Color>,
    pub stderr: Option<bool>,
}

impl Console {
    /// The color mode; automatic when unset.
    pub fn get_color(&self) -> (r: Color)
        ensures
            r == match self.color {
                Some(c) => c,
                None => Color::Auto,
            },
    {
        match self.color {
            Some(c) => c,
            None => Color::Auto,
        }
    }

    /// Whether errors go to stderr; on when unset.
    pub fn get_stderr(&self) -> (r: bool)
        ensures
            r == match self.stderr {
                Some(b) => b,
                None => true,
            },
    {
        match self.stderr {
            Some(b) => b,
            None => true,
        }
    }
}

/// Presence of this section enables the file sink.
pub struct File {
}

/// Log sink settings.
pub struct Logger {
    pub level: Option<Level>,
    pub time_format: Option<Vec<u8>>,
    pub console: Option<Console>,
    pub file: Option<File>,
}

impl Logger {
    /// The level filter; `Debug` when unset.
    pub fn get_level(&self) -> (r: Level)
        ensures
            r == match self.level {
                Some(l) => l,
                None => Level::Debug,
            },
    {
        match self.level {
            Some(l) => l,
            None => Level::Debug,
        }
    }
}

/// Profiler settings.
pub struct Profiler {
    pub port: Option<u16>,
    pub max_rows: Option<u32>,
    pub min_period: Option<u16>,
}

impl Profiler {
    /// The TCP port to listen on.
    pub fn get_port(&self) -> (r: u16)
        ensures
            r == match self.port {
                Some(p) => p,
                None => DEFAULT_PORT,
            },
    {
        match self.port {
            Some(p) => p,
            None => DEFAULT_PORT,
        }
    }

    /// The global row cap per span per recording window.
    pub fn get_max_rows(&self) -> (r: u32)
        ensures
            r == match self.max_rows {
                Some(m) => m,
                None => DEFAULT_MAX_ROWS,
            },
    {
        match self.max_rows {
            Some(m) => m,
            None => DEFAULT_MAX_ROWS,
        }
    }

    /// The floor for the aggregate push period, in milliseconds.
    pub fn get_min_period(&self) -> (r: u16)
        ensures
            r == match self.min_period {
                Some(m) => m,
                None => DEFAULT_MIN_PERIOD,
            },
    {
        match self.min_period {
            Some(m) => m,
            None => DEFAULT_MIN_PERIOD,
        }
    }
}

/// The whole configuration.
pub struct Config {
    pub mode: Option<Mode>,
    pub logger: Option<Logger>,
    pub profiler: Option<Profiler>,
}

impl Config {
    /// The selected subsystem; the log sink when unset.
    pub fn get_mode(&self) -> (r: Mode)
        ensures
            r == match self.mode {
                Some(m) => m,
                None => Mode::Logger,
            },
    {
        match self.mode {
            Some(m) => m,
            None => Mode::Logger,
        }
    }
}

impl Default for Config {
    /// An empty configuration: every getter falls back to its default.
    fn default() -> (r: Config)
        ensures
            r.mode is None,
            r.logger is None,
            r.profiler is None,
    {
        Config { mode: None, logger: None, profiler: None }
    }
}

} // verus!
