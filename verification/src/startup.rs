//! Startup validation: the decision of what the root path handed on the
//! command line denotes, separated from the I/O that probes it.

use vstd::prelude::*;

verus! {

/// What an existing root path denotes.
#[derive(Clone, Copy, Debug, PartialEq, Eq)]
pub enum RootKind {
    File,
    Dir,
    OtherExisting,
}

/// Why startup validation rejects the invocation.
#[derive(Clone, Copy, Debug, PartialEq, Eq)]
pub enum StartupError {
    /// No root path argument was given.
    MissingArg,
    /// The root path does not exist.
    RootMissing,
}

/// Classify the root path from what probing it found. Rejects a missing
/// argument, then a missing path; an existing path is a file, a directory,
/// or something else, tested in that order.
pub fn classify_root(has_arg: bool, exists: bool, is_file: bool, is_dir: bool) -> (r: Result<
    RootKind,
    StartupError,
>)
    ensures
        !has_arg <==> r == Result::<RootKind, StartupError>::Err(StartupError::MissingArg),
        has_arg && !exists <==> r == Result::<RootKind, StartupError>::Err(
            StartupError::RootMissing,
        ),
        has_arg && exists && is_file <==> r == Result::<RootKind, StartupError>::Ok(
            RootKind::File,
        ),
        has_arg && exists && !is_file && is_dir <==> r == Result::<RootKind, StartupError>::Ok(
            RootKind::Dir,
        ),
        has_arg && exists && !is_file && !is_dir <==> r == Result::<RootKind, StartupError>::Ok(
            RootKind::OtherExisting,
        ),
{
    if !has_arg {
        Err(StartupError::MissingArg)
    } else if !exists {
        Err(StartupError::RootMissing)
    } else if is_file {
        Ok(RootKind::File)
    } else if is_dir {
        Ok(RootKind::Dir)
    } else {
        Ok(RootKind::OtherExisting)
    }
}

} // verus!
