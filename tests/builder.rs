use native_windows_gui::error::SystemError;
use native_windows_gui::window_helper::{font_message_args, sysclass_result, ERROR_CLASS_ALREADY_EXISTS};

#[test]
fn sysclass_registered_twice_succeeds() {
    assert_eq!(sysclass_result(0x400000, 0xC123, 0), Ok(()));
    assert_eq!(sysclass_result(0x400000, 0, ERROR_CLASS_ALREADY_EXISTS), Ok(()));
}

#[test]
fn sysclass_without_module_fails() {
    assert_eq!(sysclass_result(0, 0xC123, 0), Err(SystemError::SystemClassCreation));
}

#[test]
fn sysclass_other_registration_error_fails() {
    assert_eq!(sysclass_result(0x400000, 0, 87), Err(SystemError::SystemClassCreation));
    assert_eq!(ERROR_CLASS_ALREADY_EXISTS, 1410);
}

#[test]
fn font_message_arguments() {
    assert_eq!(font_message_args(Some(0xABC), true), (0xABC, 1));
    assert_eq!(font_message_args(None, false), (0, 0));
    assert_eq!(font_message_args(None, true), (0, 1));
}
