use native_windows_gui::error::{Error, SystemError};
use native_windows_gui::events::{route_message, Route};
use native_windows_gui::handle::AnyHandle;
use native_windows_gui::ui::UiInner;
use native_windows_gui::window_helper::{
    handle_of_font, handle_of_window, list_window_children, register_window, window_result,
};

/// The identifier "btn1", spelled as its four ASCII bytes.
const BTN1: u64 = 0x6274_6e31;

#[test]
fn register_create_lookup_remove_btn1() {
    let mut ui = UiInner::new();
    let created = window_result(0x10, 0x2040);
    assert_eq!(register_window(&mut ui, BTN1, created), Ok(0x2040));
    assert_eq!(ui.handle_of(&BTN1), Ok(AnyHandle::HWND(0x2040)));
    assert_eq!(ui.remove(&BTN1), Ok(AnyHandle::HWND(0x2040)));
    assert_eq!(ui.handle_of(&BTN1), Err(Error::KeyNotFound));
    assert_eq!(ui.len(), 0);
}

#[test]
fn insert_refuses_taken_identifier() {
    let mut ui = UiInner::new();
    assert_eq!(ui.insert(1, AnyHandle::HWND(100)), Ok(()));
    assert_eq!(ui.insert(1, AnyHandle::HWND(200)), Err(Error::KeyExists));
    assert_eq!(ui.handle_of(&1), Ok(AnyHandle::HWND(100)));
    assert_eq!(ui.len(), 1);
}

#[test]
fn insert_refuses_taken_handle() {
    let mut ui = UiInner::new();
    assert_eq!(ui.insert(1, AnyHandle::HWND(100)), Ok(()));
    assert_eq!(ui.insert(2, AnyHandle::HWND(100)), Err(Error::HandleExists));
    assert!(!ui.contains(&2));
    assert_eq!(ui.id_of(&AnyHandle::HWND(100)), Some(1));
}

#[test]
fn same_raw_value_of_different_kinds_is_distinct() {
    let mut ui = UiInner::new();
    assert_eq!(ui.insert(1, AnyHandle::HWND(7)), Ok(()));
    assert_eq!(ui.insert(2, AnyHandle::HFONT(7)), Ok(()));
    assert_eq!(ui.insert(3, AnyHandle::HMENU(7)), Ok(()));
    assert_eq!(ui.id_of(&AnyHandle::HWND(7)), Some(1));
    assert_eq!(ui.id_of(&AnyHandle::HFONT(7)), Some(2));
    assert_eq!(ui.id_of(&AnyHandle::HMENU(7)), Some(3));
}

#[test]
fn remove_frees_identifier_and_handle() {
    let mut ui = UiInner::new();
    assert_eq!(ui.insert(1, AnyHandle::HWND(100)), Ok(()));
    assert_eq!(ui.remove(&1), Ok(AnyHandle::HWND(100)));
    assert_eq!(ui.id_of(&AnyHandle::HWND(100)), None);
    assert_eq!(ui.remove(&1), Err(Error::KeyNotFound));
    assert_eq!(ui.insert(2, AnyHandle::HWND(100)), Ok(()));
    assert_eq!(ui.insert(1, AnyHandle::HWND(300)), Ok(()));
    assert_eq!(ui.window_id(100), Some(2));
    assert_eq!(ui.window_id(300), Some(1));
}

#[test]
fn bijection_after_mixed_inserts_and_removes() {
    let mut ui = UiInner::new();
    for i in 0..20u64 {
        assert_eq!(ui.insert(i, AnyHandle::HWND(1000 + i as usize)), Ok(()));
    }
    for i in (0..20u64).step_by(2) {
        assert_eq!(ui.remove(&i), Ok(AnyHandle::HWND(1000 + i as usize)));
    }
    for i in 0..20u64 {
        let expected = if i % 2 == 0 { None } else { Some(i) };
        assert_eq!(ui.window_id(1000 + i as usize), expected);
    }
    assert_eq!(ui.len(), 10);
}

#[test]
fn window_accessor_on_font_is_bad_parent() {
    let mut ui = UiInner::new();
    assert_eq!(ui.insert(5, AnyHandle::HFONT(900)), Ok(()));
    assert_eq!(
        handle_of_window(&ui, &5, "parent must be a window"),
        Err(Error::BadParent("parent must be a window".to_string()))
    );
    assert_eq!(handle_of_font(&ui, &5, "font"), Ok(900));
}

#[test]
fn font_accessor_on_window_is_bad_resource() {
    let mut ui = UiInner::new();
    assert_eq!(ui.insert(5, AnyHandle::HWND(900)), Ok(()));
    assert_eq!(
        handle_of_font(&ui, &5, "not a font"),
        Err(Error::BadResource("not a font".to_string()))
    );
    assert_eq!(handle_of_window(&ui, &5, "parent"), Ok(900));
}

#[test]
fn typed_accessors_on_unknown_identifier() {
    let ui = UiInner::new();
    assert_eq!(handle_of_window(&ui, &8, "parent"), Err(Error::KeyNotFound));
    assert_eq!(handle_of_font(&ui, &8, "font"), Err(Error::KeyNotFound));
}

#[test]
fn failed_window_creation_leaves_registry() {
    let mut ui = UiInner::new();
    assert_eq!(ui.insert(1, AnyHandle::HWND(100)), Ok(()));
    let created = window_result(0x10, 0);
    assert_eq!(created, Err(SystemError::WindowCreationFail));
    assert_eq!(
        register_window(&mut ui, 2, created),
        Err(Error::System(SystemError::WindowCreationFail))
    );
    assert_eq!(ui.len(), 1);
    assert!(!ui.contains(&2));
    assert_eq!(window_result(0, 0x55), Err(SystemError::WindowCreationFail));
}

#[test]
fn register_window_reports_taken_identifier() {
    let mut ui = UiInner::new();
    assert_eq!(register_window(&mut ui, 1, Ok(100)), Ok(100));
    assert_eq!(register_window(&mut ui, 1, Ok(200)), Err(Error::KeyExists));
    assert_eq!(ui.window_id(200), None);
}

#[test]
fn children_of_root_without_recognized_descendants() {
    let mut ui = UiInner::new();
    assert_eq!(ui.insert(1, AnyHandle::HWND(100)), Ok(()));
    assert_eq!(list_window_children(&ui, &vec![], &vec![]), Vec::<u64>::new());
    assert_eq!(
        list_window_children(&ui, &vec![AnyHandle::HMENU(5)], &vec![501, 502]),
        Vec::<u64>::new()
    );
}

#[test]
fn children_skip_foreign_windows() {
    let mut ui = UiInner::new();
    assert_eq!(ui.insert(1, AnyHandle::HWND(100)), Ok(()));
    assert_eq!(ui.insert(2, AnyHandle::HWND(101)), Ok(()));
    assert_eq!(ui.insert(3, AnyHandle::HWND(102)), Ok(()));
    assert_eq!(ui.insert(4, AnyHandle::HMENU(60)), Ok(()));
    let mut kids = list_window_children(&ui, &vec![AnyHandle::HMENU(60)], &vec![900, 101, 901, 102, 902]);
    assert_eq!(kids[0], 4);
    kids.sort();
    assert_eq!(kids, vec![2, 3, 4]);
}

#[test]
fn routing_by_reverse_lookup() {
    let mut ui = UiInner::new();
    assert_eq!(ui.insert(9, AnyHandle::HWND(100)), Ok(()));
    assert_eq!(ui.insert(10, AnyHandle::HFONT(200)), Ok(()));
    assert_eq!(route_message(&ui, 100), Route::Handler(9));
    assert_eq!(route_message(&ui, 200), Route::Default);
    assert_eq!(route_message(&ui, 300), Route::Default);
}

#[test]
fn handle_keys_pack_kind_and_value() {
    assert_eq!(AnyHandle::HWND(5).key(), 5);
    assert_eq!(AnyHandle::HFONT(5).key(), (1u128 << 64) + 5);
    assert_eq!(AnyHandle::HMENU(5).key(), (2u128 << 64) + 5);
}

#[test]
fn close_hands_back_every_live_handle_once() {
    let mut ui = UiInner::new();
    assert_eq!(ui.insert(1, AnyHandle::HWND(100)), Ok(()));
    assert_eq!(ui.insert(2, AnyHandle::HFONT(200)), Ok(()));
    assert_eq!(ui.insert(3, AnyHandle::HMENU(300)), Ok(()));
    assert_eq!(ui.insert(4, AnyHandle::HWND(400)), Ok(()));
    assert_eq!(ui.remove(&2), Ok(AnyHandle::HFONT(200)));
    let mut released = ui.close();
    released.sort_by_key(|h| h.key());
    assert_eq!(
        released,
        vec![AnyHandle::HWND(100), AnyHandle::HWND(400), AnyHandle::HMENU(300)]
    );
    assert_eq!(ui.len(), 0);
    assert_eq!(ui.window_id(100), None);
    assert_eq!(ui.insert(1, AnyHandle::HWND(100)), Ok(()));
}

#[test]
fn close_of_empty_tree_releases_nothing() {
    let mut ui = UiInner::new();
    assert_eq!(ui.close(), Vec::<AnyHandle>::new());
}
