use vstd::prelude::*;

verus! {

/// The recoverable failure kinds shared by grid, tree and stack operations.
///
/// Every lookup or mutation that can fail reports one of these; none of the
/// core operations panics or aborts.
#[derive(Debug, Clone, Copy, PartialEq, Eq, Structural)]
pub enum MenuError {
    /// A child with the same display name already exists under this parent.
    NameCollision,
    /// A lookup by name, id or handle found no matching node.
    NotFound,
    /// A stack operation needed an open menu that was not there.
    EmptyStack,
    /// A cursor position or grid write exceeded the configured extent.
    OutOfBounds,
}

} // verus!
