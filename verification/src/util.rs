//! Errors raised while turning a caller-supplied archive path into an
//! absolute one. The path work itself touches the process environment and
//! lives with the caller; these are the values it reports.

use vstd::prelude::*;

verus! {

/// Why a caller-supplied archive path is rejected.
#[derive(Debug, PartialEq, Eq)]
pub enum PathError {
    EmptyPath,
    ParentPathGiven,
    CurrentPathGiven,
    EnvironmentError(String),
}

} // verus!
