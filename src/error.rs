use vstd::prelude::*;

verus! {

/// Failures of the native class and window builder.
#[derive(Debug, Clone, Copy, PartialEq, Eq, Structural)]
pub enum SystemError {
    /// The module handle was unavailable or the class could not be registered.
    SystemClassCreation,
    /// The module handle was unavailable or the window could not be created.
    WindowCreationFail,
}

/// Failures reported by the handle registry and its typed accessors.
#[derive(Debug, PartialEq, Eq)]
pub enum Error {
    /// The stored handle is not a window; carries the call site's label.
    BadParent(String),
    /// The stored handle is not the resource kind that was asked for.
    BadResource(String),
    /// No control is registered under the identifier.
    KeyNotFound,
    /// The identifier is already registered in this tree.
    KeyExists,
    /// The handle is already registered under another identifier.
    HandleExists,
    /// The OS refused to create a class or a window.
    System(SystemError),
}

} // verus!
