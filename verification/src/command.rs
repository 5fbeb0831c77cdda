//! What every AI command states about itself: a stable id and a one-line
//! description. How a command runs (its input parsing, its side effects)
//! belongs to the caller.
use vstd::prelude::*;

verus! {

/// A command's id (e.g. `workspace.create`) and description.
pub trait CommandInfo {
    fn id(&self) -> &'static str;

    fn description(&self) -> &'static str;
}

} // verus!
