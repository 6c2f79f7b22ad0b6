//! The desktop backend: every operation succeeds, queries return the zero
//! records, and toggling has no observable effect on later queries.

use edge_to_edge::desktop;

#[test]
fn desktop_init_succeeds() {
    assert!(desktop::init().is_ok());
}

#[test]
fn desktop_insets_are_zero() {
    let backend = desktop::init().unwrap();
    let insets = backend.get_safe_area_insets().unwrap();
    assert_eq!(insets.top, "0.0");
    assert_eq!(insets.right, "0.0");
    assert_eq!(insets.bottom, "0.0");
    assert_eq!(insets.left, "0.0");
}

#[test]
fn desktop_keyboard_info_is_resting() {
    let backend = desktop::init().unwrap();
    let info = backend.get_keyboard_info().unwrap();
    assert_eq!(info.keyboard_height, "0.0");
    assert!(!info.is_visible);
}

#[test]
fn desktop_toggles_succeed_in_any_order() {
    let backend = desktop::init().unwrap();
    assert!(backend.enable().is_ok());
    assert!(backend.disable().is_ok());
    assert!(backend.disable().is_ok());
    assert!(backend.enable().is_ok());
    assert!(backend.show_keyboard().is_ok());
    assert!(backend.hide_keyboard().is_ok());
}

#[test]
fn desktop_toggles_do_not_change_queries() {
    let backend = desktop::init().unwrap();
    let before = backend.get_safe_area_insets().unwrap();
    backend.enable().unwrap();
    backend.disable().unwrap();
    backend.enable().unwrap();
    let after = backend.get_safe_area_insets().unwrap();
    assert_eq!(before.top, after.top);
    assert_eq!(before.right, after.right);
    assert_eq!(before.bottom, after.bottom);
    assert_eq!(before.left, after.left);
    backend.hide_keyboard().unwrap();
    backend.show_keyboard().unwrap();
    let info = backend.get_keyboard_info().unwrap();
    assert_eq!(info.keyboard_height, "0.0");
    assert!(!info.is_visible);
}
