//! The commands of the validating tool.

use vstd::prelude::*;

verus! {

#[derive(Debug)]
pub struct Cli {
    /// How verbose the log is: 0 for info, 1 for debug, more for trace.
    pub debug: u8,
    pub command: Commands,
}

#[derive(Debug)]
pub enum Commands {
    /// Checks that the files a package requires are in a download directory.
    Validate { wabbajack_file: String, download_dirs: Vec<String> },
    /// Prints the content hash of a file.
    Hash { file: String },
    /// Sends a file to a catalog server.
    Upload { server: String, file: String },
}

/// The log levels of the tool, least verbose first.
#[derive(Debug, Clone, Copy, PartialEq, Eq, Structural)]
pub enum Verbosity {
    Info,
    Debug,
    Trace,
}

impl Cli {
    pub fn verbosity(&self) -> (r: Verbosity)
        ensures
            r == (if self.debug == 0 {
                Verbosity::Info
            } else if self.debug == 1 {
                Verbosity::Debug
            } else {
                Verbosity::Trace
            }),
    {
        if self.debug == 0 {
            Verbosity::Info
        } else if self.debug == 1 {
            Verbosity::Debug
        } else {
            Verbosity::Trace
        }
    }
}

} // verus!
