//! The program's settings, checked from the command line's values.

use vstd::prelude::*;

verus! {

/// Errors in the command line.
#[derive(Debug, Clone, Copy, PartialEq, Eq, Hash, Structural)]
pub enum ProgramOptionsErr {
    /// No input directory was given.
    MissingInputDirectory,
    /// The verbosity is above 3.
    BadVerbosity,
}

/// How much the program logs.
#[derive(Debug, Clone, Copy, PartialEq, Eq, Hash, Structural)]
pub enum LogLevel {
    Error,
    Warn,
    Info,
}

/// The highest verbosity accepted.
pub const MAX_VERBOSITY: usize = 3;

/// Options passed to the program.
pub struct ProgramOptions {
    /// The directory whose files are converted or copied.
    pub input_dir: String,
    /// Where the output tree is written; the input directory by default.
    pub output_dir: String,
    /// 0 to 3: errors only up to 1, warnings at 2, everything at 3.
    pub verbosity: usize,
    /// Whether to go on with the other files after one fails.
    pub persist: bool,
    /// Compact conversion: bare bodies, no page and no assets.
    pub simple: bool,
}

/// The log level for a verbosity.
pub open spec fn level_of(verbosity: usize) -> LogLevel {
    if verbosity == 2 {
        LogLevel::Warn
    } else if verbosity == 3 {
        LogLevel::Info
    } else {
        LogLevel::Error
    }
}

impl ProgramOptions {
    /// Checks the values read from the command line: the input directory is
    /// required, the verbosity is at most 3, the output directory defaults
    /// to the input directory, and the program persists unless told not to.
    pub fn from_args(
        input_dir: Option<String>,
        output_dir: Option<String>,
        verbosity: usize,
        no_persist: bool,
        simple: bool,
    ) -> (r: Result<ProgramOptions, ProgramOptionsErr>)
        ensures
            input_dir is None ==> r == Err::<ProgramOptions, ProgramOptionsErr>(
                ProgramOptionsErr::MissingInputDirectory,
            ),
            input_dir is Some && verbosity > MAX_VERBOSITY ==> r == Err::<
                ProgramOptions,
                ProgramOptionsErr,
            >(ProgramOptionsErr::BadVerbosity),
            input_dir is Some && verbosity <= MAX_VERBOSITY ==> {
                &&& r matches Ok(o)
                &&& o.input_dir@ == input_dir->0@
                &&& o.output_dir@ == match output_dir {
                    Some(d) => d@,
                    None => input_dir->0@,
                }
                &&& o.verbosity == verbosity
                &&& o.persist == !no_persist
                &&& o.simple == simple
            },
    {
        let input_dir = match input_dir {
            Some(d) => d,
            None => {
                return Err(ProgramOptionsErr::MissingInputDirectory);
            },
        };
        let output_dir = match output_dir {
            Some(d) => d,
            None => input_dir.clone(),
        };
        if verbosity > MAX_VERBOSITY {
            return Err(ProgramOptionsErr::BadVerbosity);
        }
        Ok(ProgramOptions { input_dir, output_dir, verbosity, persist: !no_persist, simple })
    }

    /// The log level that the verbosity asks for.
    pub fn log_level(&self) -> (r: LogLevel)
        ensures
            r == level_of(self.verbosity),
    {
        if self.verbosity == 2 {
            LogLevel::Warn
        } else if self.verbosity == 3 {
            LogLevel::Info
        } else {
            LogLevel::Error
        }
    }
}

} // verus!
