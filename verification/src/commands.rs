//! Options that a caller hands to an extraction run.

use vstd::prelude::*;

verus! {

/// What one extraction run is asked to do: the archive's path, whether to
/// report each entry as it is extracted, and an optional destination
/// directory.
pub struct ExtractOptions {
    pub path: String,
    pub verbose: bool,
    pub destination_path: Option<String>,
}

impl ExtractOptions {
    /// Bundles the three options.
    pub fn new(path: String, verbose: bool, destination_path: Option<String>) -> (r: Self)
        ensures
            r.path == path,
            r.verbose == verbose,
            r.destination_path == destination_path,
    {
        Self { path, verbose, destination_path }
    }
}

} // verus!
