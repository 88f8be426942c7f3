use klmd::color::RGB;
use klmd::driver::{Driver, DriverCall};
use klmd::keyboard::{Keyboard, KeyboardState};
use klmd::recording::RecordingDriver;

fn fresh() -> Keyboard<RecordingDriver> {
    Keyboard::new(RecordingDriver::new())
}

#[test]
fn save_load_round_trip() {
    let mut kb = fresh();
    kb.set_state(KeyboardState::KeyboardBreathing);
    kb.set_color(RGB::new(10, 20, 30));
    kb.add_color(RGB::new(40, 50, 60));
    kb.set_brightness(7);
    kb.set_speed(2);
    kb.set_power(true);
    let record = kb.save_state();

    let mut other = fresh();
    assert!(other.load_state_if_exists(&Some(record.clone())));
    assert_eq!(other.save_state(), record);
}

#[test]
fn save_state_layout() {
    let mut kb = fresh();
    kb.set_state(KeyboardState::KeyboardSteady);
    kb.set_color(RGB::new(1, 2, 3));
    kb.set_brightness(9);
    kb.set_speed(1);
    kb.set_power(true);
    assert_eq!(kb.save_state(), vec![9, 1, 0x01, 0x01, 1, 1, 2, 3]);
}

#[test]
fn load_missing_record_leaves_state() {
    let mut kb = fresh();
    let before = kb.save_state();
    assert!(!kb.load_state_if_exists(&None));
    assert_eq!(kb.save_state(), before);
}

#[test]
fn load_rejects_short_record() {
    let mut kb = fresh();
    let before = kb.save_state();
    assert!(!kb.load_state(&vec![1, 2, 3]));
    assert_eq!(kb.save_state(), before);
}

#[test]
fn load_rejects_bad_mode_byte() {
    let mut kb = fresh();
    let before = kb.save_state();
    assert!(!kb.load_state(&vec![0, 0, 0x09, 0, 0]));
    assert_eq!(kb.save_state(), before);
}

#[test]
fn load_rejects_truncated_colors() {
    let mut kb = fresh();
    let before = kb.save_state();
    assert!(!kb.load_state(&vec![0, 0, 0x01, 0, 2, 1, 2, 3]));
    assert_eq!(kb.save_state(), before);
}

#[test]
fn load_ignores_trailing_bytes() {
    let mut kb = fresh();
    assert!(kb.load_state(&vec![4, 1, 0x02, 1, 1, 9, 8, 7, 0xAA, 0xBB]));
    assert_eq!(kb.save_state(), vec![4, 1, 0x02, 1, 1, 9, 8, 7]);
}

#[test]
fn power_off_precedence() {
    let mut kb = fresh();
    kb.set_state(KeyboardState::KeyboardSteady);
    kb.set_color(RGB::new(255, 0, 0));
    kb.set_brightness(5);
    kb.set_power(false);
    kb.sync();
    let log = kb.driver().recorded();
    assert!(matches!(log.last(), Some(DriverCall::Power(false))));
}

#[test]
fn sync_steady_uses_first_color() {
    let mut kb = fresh();
    kb.set_state(KeyboardState::KeyboardSteady);
    kb.set_color(RGB::new(1, 2, 3));
    kb.add_color(RGB::new(4, 5, 6));
    kb.set_brightness(8);
    kb.set_power(true);
    kb.sync();
    match kb.driver().recorded().last() {
        Some(DriverCall::Color(c, brightness)) => {
            assert_eq!(*c, RGB::new(1, 2, 3));
            assert_eq!(*brightness, 8);
        },
        other => panic!("expected a steady-color call, got {:?}", other),
    }
}

#[test]
fn sync_breathing_sends_whole_sequence() {
    let mut kb = fresh();
    kb.set_state(KeyboardState::KeyboardBreathing);
    kb.set_color(RGB::new(1, 2, 3));
    kb.add_color(RGB::new(4, 5, 6));
    kb.set_brightness(8);
    kb.set_speed(1);
    kb.set_power(true);
    kb.sync();
    match kb.driver().recorded().last() {
        Some(DriverCall::Breathing(colors, brightness, speed)) => {
            assert_eq!(colors, &vec![RGB::new(1, 2, 3), RGB::new(4, 5, 6)]);
            assert_eq!(*brightness, 8);
            assert_eq!(*speed, 1);
        },
        other => panic!("expected a breathing call, got {:?}", other),
    }
}

#[test]
fn sync_off_mode_powers_down() {
    let mut kb = fresh();
    kb.set_state(KeyboardState::KeyboardOff);
    kb.set_power(true);
    kb.sync();
    assert!(matches!(kb.driver().recorded().last(), Some(DriverCall::Power(false))));
}

#[test]
fn mutators_do_not_sync_while_locked() {
    let mut kb = fresh();
    kb.lock_sync();
    kb.set_color(RGB::new(1, 1, 1));
    kb.set_brightness(3);
    kb.set_speed(1);
    kb.set_state(KeyboardState::KeyboardSteady);
    assert_eq!(kb.driver().recorded_len(), 0);
}

#[test]
fn mutators_sync_once_each_when_unlocked() {
    let mut kb = fresh();
    kb.unlock_sync();
    kb.set_color(RGB::new(1, 1, 1));
    kb.set_brightness(3);
    assert_eq!(kb.driver().recorded_len(), 2);
}

#[test]
fn toggle_power_flips() {
    let mut kb = fresh();
    kb.toggle_power();
    assert_eq!(kb.save_state()[3], 1);
    kb.toggle_power();
    assert_eq!(kb.save_state()[3], 0);
}

#[test]
fn reset_colors_empties_sequence() {
    let mut kb = fresh();
    kb.reset_colors();
    assert_eq!(kb.colors_len(), 0);
    assert_eq!(kb.save_state()[4], 0);
}

#[test]
fn initial_state_is_off_with_one_black_color() {
    let kb = fresh();
    assert_eq!(kb.save_state(), vec![0, 0, 0x00, 0x00, 1, 0, 0, 0]);
}

#[test]
fn get_color_modes_reports_driver_modes() {
    let kb = fresh();
    let modes: Vec<u8> = kb.get_color_modes().iter().map(|m| m.to_u8()).collect();
    assert_eq!(modes, vec![0, 1, 2]);
}

#[test]
fn recording_driver_reports_refusal_and_success() {
    let mut d = RecordingDriver::new();
    let short: Vec<RGB> = (0..7).map(|i| RGB::new(i, i, i)).collect();
    let long: Vec<RGB> = (0..8).map(|i| RGB::new(i, i, i)).collect();
    assert!(d.set_breathing(&short, 1, 1));
    assert!(!d.set_breathing(&long, 1, 1));
    assert!(d.set_shift(&short, 1, 1));
    assert!(!d.set_shift(&long, 1, 1));
    assert!(d.set_color(&RGB::new(1, 2, 3), 1));
    assert!(d.set_power(false));
    assert!(d.set_power(true));
    assert_eq!(d.recorded_len(), 7);
}

#[test]
fn keyboard_state_bytes_round_trip() {
    for byte in 0u8..4u8 {
        let state = KeyboardState::from_u8(byte).unwrap();
        assert_eq!(KeyboardState::to_u8(state), byte);
    }
    assert!(KeyboardState::from_u8(4).is_none());
    assert!(KeyboardState::from_u8(0xFF).is_none());
}
