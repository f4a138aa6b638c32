//! What a command line asks of the runtime.

use vstd::prelude::*;
use vstd::string::StringExecFns;

verus! {

/// The settings of one run.
pub struct Options {
    /// Where to write.
    pub output: String,
    /// What to read.
    pub input: String,
    /// The function to start with, as its module, a dot and its name.
    pub entry: String,
    /// Whether to report how long the run took.
    pub time: bool,
}

impl Options {
    /// The settings when nothing is asked: no files, the entry `main.main`,
    /// no timing.
    pub fn new() -> (options: Options)
        ensures
            options.output@ == Seq::<char>::empty(),
            options.input@ == Seq::<char>::empty(),
            options.entry@ == "main.main"@,
            !options.time,
    {
        Options {
            output: String::new(),
            input: String::new(),
            entry: String::from_str("main.main"),
            time: false,
        }
    }
}

} // verus!
