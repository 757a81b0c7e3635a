use vstd::prelude::*;

use crate::handle::AnyHandle;
use crate::ui::{holds_handle, UiInner};

verus! {

/// Where the window procedure sends a message.
#[derive(Debug, Clone, Copy, PartialEq, Eq, Structural)]
pub enum Route {
    /// The window belongs to the tree under this identifier: run its handlers.
    Handler(u64),
    /// Unknown window (not yet registered, or already torn down): pass the
    /// message to the OS's default procedure.
    Default,
}

/// Routes a message addressed to `hwnd` by reverse lookup in the registry.
pub fn route_message(ui: &UiInner, hwnd: usize) -> (r: Route)
    requires
        ui.wf(),
    ensures
        match r {
            Route::Handler(id) => ui@.contains_key(id) && ui@[id] == AnyHandle::HWND(hwnd),
            Route::Default => !holds_handle(ui@, AnyHandle::HWND(hwnd)),
        },
{
    match ui.window_id(hwnd) {
        Some(id) => Route::Handler(id),
        None => Route::Default,
    }
}

} // verus!
