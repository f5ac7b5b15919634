use std::sync::mpsc::channel;

use impulse::cursor::CursorMovementCalculator;
use impulse::hotkeys::{HotkeyCommand, HotkeyHandler, VK_END, VK_F1, VK_F2};
use impulse::keys::key_name_to_vk_code;
use impulse::logger::{format_log_line, LogLevel};

#[test]
fn key_names_in_any_case() {
    assert_eq!(key_name_to_vk_code("f1"), Some(0x70));
    assert_eq!(key_name_to_vk_code("F12"), Some(0x7B));
    assert_eq!(key_name_to_vk_code("PageUp"), Some(0x21));
    assert_eq!(key_name_to_vk_code("end"), Some(0x23));
    assert_eq!(key_name_to_vk_code("x"), Some(0x58));
    assert_eq!(key_name_to_vk_code("7"), Some(0x37));
    assert_eq!(key_name_to_vk_code("NONE"), None);
    assert_eq!(key_name_to_vk_code("none"), None);
    assert_eq!(key_name_to_vk_code(""), None);
    assert_eq!(key_name_to_vk_code("F13"), None);
}

#[test]
fn cursor_movement_rounds_halves_away_from_zero() {
    assert_eq!(CursorMovementCalculator::calculate_cursor_movement(1), 24);
    assert_eq!(CursorMovementCalculator::calculate_cursor_movement(7), 3);
    assert_eq!(CursorMovementCalculator::calculate_cursor_movement(16), 2);
    assert_eq!(CursorMovementCalculator::calculate_cursor_movement(48), 1);
    assert_eq!(CursorMovementCalculator::calculate_cursor_movement(49), 0);
    assert_eq!(CursorMovementCalculator::calculate_cursor_movement(-16), -2);
    assert_eq!(CursorMovementCalculator::calculate_cursor_movement(-5), -5);
    assert_eq!(CursorMovementCalculator::calculate_cursor_movement(0), i32::MAX);
    assert_eq!(CursorMovementCalculator::calculate_cursor_movement(i32::MIN), 0);
}

#[test]
fn log_line_layout() {
    assert_eq!(LogLevel::Warning.as_str(), "Warning");
    assert_eq!(
        format_log_line(LogLevel::Debug, "2024-01-02 03:04:05.678", "ready"),
        "[Debug][2024-01-02 03:04:05.678] ready\n"
    );
}

fn names(cmds: &[HotkeyCommand]) -> Vec<String> {
    cmds.iter()
        .map(|c| match c {
            HotkeyCommand::Exit => "exit".to_string(),
            HotkeyCommand::ToggleRcs => "toggle".to_string(),
            HotkeyCommand::HideToggle => "hide".to_string(),
            HotkeyCommand::SelectWeapon(w) => w.clone(),
        })
        .collect()
}

#[test]
fn new_press_fires_once() {
    let (tx, rx) = channel();
    let mut h = HotkeyHandler::new();
    assert_eq!((h.exit_key, h.toggle_key, h.hide_key), (VK_END, VK_F1, VK_F2));
    h.set_sender(tx);
    h.bind_weapon(0x31, "R4-C".to_string());
    let first = h.check_hotkeys(&vec![VK_F1, 0x31]);
    assert_eq!(names(&first), vec!["toggle", "R4-C"]);
    let held = h.check_hotkeys(&vec![VK_F1, 0x31]);
    assert!(held.is_empty());
    let released = h.check_hotkeys(&vec![]);
    assert!(released.is_empty());
    let again = h.check_hotkeys(&vec![VK_F1]);
    assert_eq!(names(&again), vec!["toggle"]);
    let sent: Vec<HotkeyCommand> = rx.try_iter().collect();
    assert_eq!(names(&sent), vec!["toggle", "R4-C", "toggle"]);
}

#[test]
fn nothing_is_checked_without_a_channel() {
    let mut h = HotkeyHandler::new();
    assert!(h.check_hotkeys(&vec![VK_END]).is_empty());
    assert!(h.prev_states.is_empty());
}

#[test]
fn rebinding_and_unbinding() {
    let (tx, _rx) = channel();
    let mut h = HotkeyHandler::new();
    h.set_sender(tx);
    h.set_exit_key(0x2E);
    h.set_toggle_key(0x2D);
    h.set_hide_key(0x24);
    h.bind_weapon(0x31, "A".to_string());
    h.bind_weapon(0x32, "B".to_string());
    h.bind_weapon(0x31, "C".to_string());
    assert_eq!(h.weapon_bindings.len(), 2);
    assert_eq!(h.weapon_bindings[0].weapon_name, "C");
    h.unbind_weapon(0x31);
    h.unbind_weapon(0x33);
    assert_eq!(h.weapon_bindings.len(), 1);
    assert_eq!(h.weapon_bindings[0].key_code, 0x32);
    let cmds = h.check_hotkeys(&vec![0x2E, 0x24, 0x31, 0x32, VK_END]);
    assert_eq!(names(&cmds), vec!["exit", "hide", "B"]);
}

#[test]
fn same_key_twice_fires_once() {
    let (tx, _rx) = channel();
    let mut h = HotkeyHandler::new();
    h.set_sender(tx);
    h.set_toggle_key(VK_END);
    let cmds = h.check_hotkeys(&vec![VK_END]);
    assert_eq!(names(&cmds), vec!["exit"]);
}
