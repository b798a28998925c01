//! The failures the engine itself decides on. Failures of the surrounding
//! I/O (file creation, process spawning, a root path that has no text form)
//! stay with the code that performs that I/O.

use vstd::prelude::*;

verus! {

/// Why an operation of the engine refuses to go on.
pub enum EnvError {
    /// The activation file already exists and a write was demanded; it is
    /// never overwritten.
    Conflict,
    /// A mandatory command exited without success; `code` is its exit code,
    /// if the process reported one, and `cmd` the command text.
    CommandFailure { code: Option<i32>, cmd: String },
}

} // verus!
