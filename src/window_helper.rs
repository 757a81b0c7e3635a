use vstd::prelude::*;

use crate::error::{Error, SystemError};
use crate::handle::AnyHandle;
use crate::ui::{holds_handle, is_bijection, UiInner};

verus! {

/// The OS's last-error code for a class name that is already registered.
pub const ERROR_CLASS_ALREADY_EXISTS: u32 = 1410;

/// Parameters of one native window. Handles are carried as raw values;
/// a `parent` of 0 means a top-level window.
pub struct WindowParams {
    pub title: String,
    pub class_name: String,
    pub position: (i32, i32),
    pub size: (u32, u32),
    pub flags: u32,
    pub parent: usize,
}

/// What class registration comes to, given the module handle (0 when it
/// could not be had), the atom the OS returned, and its last-error code.
pub open spec fn spec_sysclass_result(module: usize, atom: u16, last_error: u32) -> Result<
    (),
    SystemError,
> {
    if module != 0 && (atom != 0 || last_error == ERROR_CLASS_ALREADY_EXISTS) {
        Ok(())
    } else {
        Err(SystemError::SystemClassCreation)
    }
}

/// Decides the outcome of registering a window class. A class that already
/// exists under that name counts as registered.
pub fn sysclass_result(module: usize, atom: u16, last_error: u32) -> (r: Result<(), SystemError>)
    ensures
        r == spec_sysclass_result(module, atom, last_error),
{
    if module == 0 {
        return Err(SystemError::SystemClassCreation);
    }
    if atom == 0 && last_error != ERROR_CLASS_ALREADY_EXISTS {
        Err(SystemError::SystemClassCreation)
    } else {
        Ok(())
    }
}

/// Registering the same class a second time, which the OS answers with a
/// zero atom and "already exists", succeeds just as the first time did.
pub proof fn lemma_sysclass_repeat_succeeds(module: usize, first_atom: u16)
    requires
        module != 0,
        first_atom != 0,
    ensures
        spec_sysclass_result(module, first_atom, 0) == Ok::<(), SystemError>(()),
        spec_sysclass_result(module, 0, ERROR_CLASS_ALREADY_EXISTS) == Ok::<(), SystemError>(()),
{
}

/// Decides the outcome of creating a window, given the module handle and
/// the handle the OS returned (0 for each when it failed).
pub fn window_result(module: usize, created: usize) -> (r: Result<usize, SystemError>)
    ensures
        module != 0 && created != 0 ==> r == Ok::<usize, SystemError>(created),
        module == 0 || created == 0 ==> r == Err::<usize, SystemError>(
            SystemError::WindowCreationFail,
        ),
{
    if module == 0 || created == 0 {
        Err(SystemError::WindowCreationFail)
    } else {
        Ok(created)
    }
}

/// Records the outcome of a window creation under `id`. A failed creation
/// registers nothing and leaves the registry as it was.
pub fn register_window(ui: &mut UiInner, id: u64, created: Result<usize, SystemError>) -> (r: Result<
    usize,
    Error,
>)
    requires
        old(ui).wf(),
    ensures
        final(ui).wf(),
        created is Err ==> r == Err::<usize, Error>(Error::System(created->Err_0)) && final(ui)@
            == old(ui)@,
        created is Ok ==> {
            let h = AnyHandle::HWND(created->Ok_0);
            &&& old(ui)@.contains_key(id) ==> r == Err::<usize, Error>(Error::KeyExists)
            &&& !old(ui)@.contains_key(id) && holds_handle(old(ui)@, h) ==> r == Err::<
                usize,
                Error,
            >(Error::HandleExists)
            &&& !old(ui)@.contains_key(id) && !holds_handle(old(ui)@, h) ==> r == Ok::<
                usize,
                Error,
            >(created->Ok_0) && final(ui)@ == old(ui)@.insert(id, h)
            &&& r is Err ==> final(ui)@ == old(ui)@
        },
{
    match created {
        Err(e) => Err(Error::System(e)),
        Ok(hwnd) => match ui.insert(id, AnyHandle::HWND(hwnd)) {
            Ok(()) => Ok(hwnd),
            Err(e) => Err(e),
        },
    }
}

/// The window handle registered under `id`. A handle of another kind gives
/// `BadParent` carrying `err`; an unknown identifier gives `KeyNotFound`.
pub fn handle_of_window(ui: &UiInner, id: &u64, err: &str) -> (r: Result<usize, Error>)
    ensures
        !ui@.contains_key(*id) ==> r == Err::<usize, Error>(Error::KeyNotFound),
        ui@.contains_key(*id) ==> match ui@[*id] {
            AnyHandle::HWND(h) => r == Ok::<usize, Error>(h),
            _ => r matches Err(Error::BadParent(s)) && s@ == err@,
        },
{
    match ui.handle_of(id) {
        Ok(AnyHandle::HWND(h)) => Ok(h),
        Ok(_) => Err(Error::BadParent(err.to_owned())),
        Err(e) => Err(e),
    }
}

/// The font handle registered under `id`. A handle of another kind gives
/// `BadResource` carrying `err`; an unknown identifier gives `KeyNotFound`.
pub fn handle_of_font(ui: &UiInner, id: &u64, err: &str) -> (r: Result<usize, Error>)
    ensures
        !ui@.contains_key(*id) ==> r == Err::<usize, Error>(Error::KeyNotFound),
        ui@.contains_key(*id) ==> match ui@[*id] {
            AnyHandle::HFONT(h) => r == Ok::<usize, Error>(h),
            _ => r matches Err(Error::BadResource(s)) && s@ == err@,
        },
{
    match ui.handle_of(id) {
        Ok(AnyHandle::HFONT(h)) => Ok(h),
        Ok(_) => Err(Error::BadResource(err.to_owned())),
        Err(e) => Err(e),
    }
}

/// Message arguments that set a window's font: the font handle (0 restores
/// the system font) and the redraw flag as 0 or 1.
pub fn font_message_args(font: Option<usize>, redraw: bool) -> (r: (usize, isize))
    ensures
        r.0 == match font {
            Some(f) => f,
            None => 0usize,
        },
        r.1 == if redraw {
            1isize
        } else {
            0isize
        },
{
    let wparam = match font {
        Some(f) => f,
        None => 0,
    };
    (wparam, if redraw { 1 } else { 0 })
}


/// The identifier bound to `h` in `m`; meaningful when `holds_handle(m, h)`.
pub open spec fn owner_of(m: Map<u64, AnyHandle>, h: AnyHandle) -> u64 {
    choose|id: u64| m.contains_key(id) && m[id] == h
}

/// The identifiers of the handles of `hs` that `m` recognizes, in the order
/// of `hs`; handles that `m` does not hold are skipped.
pub open spec fn recognized(m: Map<u64, AnyHandle>, hs: Seq<AnyHandle>) -> Seq<u64>
    decreases hs.len(),
{
    if hs.len() == 0 {
        Seq::empty()
    } else {
        let rest = recognized(m, hs.drop_last());
        if holds_handle(m, hs.last()) {
            rest.push(owner_of(m, hs.last()))
        } else {
            rest
        }
    }
}

/// The raw window handles of `ws`, as tagged handles.
pub open spec fn as_windows(ws: Seq<usize>) -> Seq<AnyHandle> {
    ws.map_values(|w: usize| AnyHandle::HWND(w))
}

/// Under a bijection the reverse lookup's answer is the owner.
proof fn lemma_lookup_is_owner(m: Map<u64, AnyHandle>, h: AnyHandle, id: u64)
    requires
        is_bijection(m),
        m.contains_key(id),
        m[id] == h,
    ensures
        holds_handle(m, h),
        owner_of(m, h) == id,
{
    assert(holds_handle(m, h));
    let o = owner_of(m, h);
    assert(m.contains_key(o) && m[o] == h);
}

/// Appends to `out` the identifiers of the handles of `hs` that `ui` knows.
fn push_recognized(ui: &UiInner, hs: &Vec<AnyHandle>, out: &mut Vec<u64>)
    requires
        ui.wf(),
    ensures
        final(out)@ == old(out)@ + recognized(ui@, hs@),
{
    proof {
        ui.lemma_bijection();
    }
    let mut i: usize = 0;
    while i < hs.len()
        invariant
            i <= hs@.len(),
            ui.wf(),
            is_bijection(ui@),
            out@ == old(out)@ + recognized(ui@, hs@.subrange(0, i as int)),
        decreases hs@.len() - i,
    {
        let h = hs[i];
        let found = ui.id_of(&h);
        proof {
            let pre = hs@.subrange(0, i as int + 1);
            assert(pre.drop_last() =~= hs@.subrange(0, i as int));
            assert(pre.last() == h);
        }
        match found {
            Some(id) => {
                proof {
                    lemma_lookup_is_owner(ui@, h, id);
                }
                out.push(id);
            },
            None => {},
        }
        proof {
            assert(out@ =~= old(out)@ + recognized(ui@, hs@.subrange(0, i as int + 1)));
        }
        i = i + 1;
    }
    proof {
        assert(hs@.subrange(0, hs@.len() as int) =~= hs@);
    }
}

/// The identifiers of a window's children that belong to the tree: first
/// those of the handles its menu bar reports, then those of the child
/// windows in the order the OS enumerated them. Foreign handles are skipped.
pub fn list_window_children(ui: &UiInner, menu_items: &Vec<AnyHandle>, windows: &Vec<usize>) -> (r: Vec<u64>)
    requires
        ui.wf(),
    ensures
        r@ == recognized(ui@, menu_items@) + recognized(ui@, as_windows(windows@)),
{
    let mut children: Vec<u64> = Vec::new();
    push_recognized(ui, menu_items, &mut children);
    let mut tagged: Vec<AnyHandle> = Vec::new();
    let mut i: usize = 0;
    while i < windows.len()
        invariant
            i <= windows@.len(),
            tagged@ =~= as_windows(windows@.subrange(0, i as int)),
        decreases windows@.len() - i,
    {
        tagged.push(AnyHandle::HWND(windows[i]));
        i = i + 1;
    }
    proof {
        assert(windows@.subrange(0, windows@.len() as int) =~= windows@);
    }
    push_recognized(ui, &tagged, &mut children);
    children
}

/// Every identifier the walk reports is recognized, and every handle of the
/// input that the tree holds contributes its identifier: the result, as a
/// set, is exactly the identifiers bound to handles of `hs`. With nothing
/// recognized the result is empty.
pub proof fn lemma_recognized_exact(m: Map<u64, AnyHandle>, hs: Seq<AnyHandle>)
    requires
        is_bijection(m),
    ensures
        recognized(m, hs).to_set() == Set::new(
            |id: u64| m.contains_key(id) && hs.contains(m[id]),
        ),
        (forall|i: int| 0 <= i < hs.len() ==> !holds_handle(m, #[trigger] hs[i])) ==> recognized(
            m,
            hs,
        ) == Seq::<u64>::empty(),
    decreases hs.len(),
{
    let target = Set::new(|id: u64| m.contains_key(id) && hs.contains(m[id]));
    if hs.len() == 0 {
        assert(recognized(m, hs).to_set() =~= target);
    } else {
        let init = hs.drop_last();
        let h = hs.last();
        lemma_recognized_exact(m, init);
        let prev = Set::new(|id: u64| m.contains_key(id) && init.contains(m[id]));
        assert(forall|i: int| 0 <= i < init.len() ==> init[i] == hs[i]);
        assert(hs =~= init.push(h));
        if holds_handle(m, h) {
            let o = owner_of(m, h);
            assert(recognized(m, hs) == recognized(m, init).push(o));
            recognized(m, init).lemma_push_to_set_commute(o);
            assert(recognized(m, hs).to_set() =~= recognized(m, init).to_set().insert(o));
            assert forall|id: u64| target.contains(id) <==> prev.insert(o).contains(id) by {
                if m.contains_key(id) && hs.contains(m[id]) {
                    let j = choose|j: int| 0 <= j < hs.len() && hs[j] == m[id];
                    if j < init.len() {
                        assert(init[j] == m[id]);
                    } else {
                        assert(m[id] == h);
                    }
                }
                if id == o {
                    assert(hs[hs.len() - 1] == m[id]);
                }
                if prev.contains(id) {
                    let j = choose|j: int| 0 <= j < init.len() && init[j] == m[id];
                    assert(hs[j] == m[id]);
                }
            }
            assert(target =~= prev.insert(o));
            assert(!(forall|i: int| 0 <= i < hs.len() ==> !holds_handle(m, #[trigger] hs[i]))) by {
                assert(hs[hs.len() - 1] == h);
            }
        } else {
            assert(recognized(m, hs) == recognized(m, init));
            assert forall|id: u64| target.contains(id) <==> prev.contains(id) by {
                if m.contains_key(id) && hs.contains(m[id]) {
                    let j = choose|j: int| 0 <= j < hs.len() && hs[j] == m[id];
                    if j < init.len() {
                        assert(init[j] == m[id]);
                    } else {
                        assert(m[id] == h);
                    }
                }
                if prev.contains(id) {
                    let j = choose|j: int| 0 <= j < init.len() && init[j] == m[id];
                    assert(hs[j] == m[id]);
                }
            }
            assert(target =~= prev);
            if forall|i: int| 0 <= i < hs.len() ==> !holds_handle(m, #[trigger] hs[i]) {
                assert forall|i: int| 0 <= i < init.len() implies !holds_handle(m, #[trigger] init[i]) by {
                    assert(hs[i] == init[i]);
                }
            }
        }
    }
}

} // verus!
