use vstd::prelude::*;

use crate::ui::UiInner;

verus! {

/// A control template: application code implements it for each kind of
/// control, creating the native window and registering it under `id`.
pub trait ControlTemplate {
    fn create(&self, ui: &mut UiInner, id: u64) -> Result<usize, ()>;
}

} // verus!
