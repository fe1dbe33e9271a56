//! The command model: what the command line asks the program to do, as
//! plain values. Parsing the actual arguments into these lives with the
//! caller.

use vstd::prelude::*;

verus! {

/// The whole invocation.
pub struct Cli {
    pub archive_command: ArchiveCommand,
}

/// Which archive format the invocation works on.
pub enum ArchiveCommand {
    Zip { zip_command: ZipCommand },
}

/// What to do with a ZIP archive: extract one, list one, or both; `verbose`
/// reports each entry as it is extracted, and `destination` overrides where
/// extracted files are placed.
pub struct ZipCommand {
    pub extract: Option<String>,
    pub verbose: bool,
    pub destination: Option<String>,
    pub list: Option<String>,
}

} // verus!
