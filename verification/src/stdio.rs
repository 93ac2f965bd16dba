use vstd::prelude::*;

verus! {

/// Where one standard stream of the child is connected.
///
/// The descriptor only records the caller's choice. What happens when no
/// choice was recorded is for the spawning side to decide.
#[derive(Debug, Clone, Copy, PartialEq, Eq, Structural)]
pub enum Stdio {
    /// Share the parent's handle.
    Inherit,
    /// Create a pipe between parent and child.
    Piped,
    /// Connect the stream to the null device.
    Null,
    /// Use an already open file descriptor.
    Fd(i32),
}

} // verus!
