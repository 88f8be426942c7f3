use klmd::color::RGB;
use klmd::driver::DriverCall;
use klmd::keyboard::Keyboard;
use klmd::proto::proto_handle_message;
use klmd::recording::RecordingDriver;

fn fresh() -> Keyboard<RecordingDriver> {
    Keyboard::new(RecordingDriver::new())
}

fn send(kb: &mut Keyboard<RecordingDriver>, message: &[u8]) -> Vec<u8> {
    let buffer: Vec<u8> = message.to_vec();
    proto_handle_message(kb, &buffer).to_u8_vec()
}

#[test]
fn empty_buffer_is_an_error() {
    let mut kb = fresh();
    assert_eq!(send(&mut kb, &[]), vec![0x01]);
    assert_eq!(kb.driver().recorded_len(), 0);
}

#[test]
fn unknown_command_is_bad_request() {
    let mut kb = fresh();
    let before = kb.save_state();
    assert_eq!(send(&mut kb, &[0xFF]), vec![0x02]);
    assert_eq!(kb.save_state(), before);
    assert_eq!(kb.driver().recorded_len(), 0);
}

#[test]
fn batching_one_sync_for_many_mutations() {
    let mut kb = fresh();
    kb.unlock_sync();
    let message = [
        0x01, 10, 20, 30, // one color
        0x02, 40, 50, 60, // another appended
        0x03, 5, // brightness
        0x04, 1, // speed
        0x05, 0x02, // breathing
        0x07, 1, // power on
    ];
    assert_eq!(send(&mut kb, &message), vec![0x00]);
    assert_eq!(kb.driver().recorded_len(), 1);
    match kb.driver().recorded().last() {
        Some(DriverCall::Breathing(colors, brightness, speed)) => {
            assert_eq!(colors, &vec![RGB::new(10, 20, 30), RGB::new(40, 50, 60)]);
            assert_eq!(*brightness, 5);
            assert_eq!(*speed, 1);
        },
        other => panic!("expected one breathing call, got {:?}", other),
    }
}

#[test]
fn mode_set_keeps_colors() {
    let mut kb = fresh();
    assert_eq!(send(&mut kb, &[0x01, 9, 8, 7]), vec![0x00]);
    assert_eq!(send(&mut kb, &[0x05, 0x02]), vec![0x00]);
    let record = kb.save_state();
    assert_eq!(record[2], 0x02); // breathing
    assert_eq!(record[4], 1); // one color kept
    assert_eq!(&record[5..8], &[9, 8, 7]);

    assert_eq!(send(&mut kb, &[0x07, 1]), vec![0x00]);
    kb.sync();
    match kb.driver().recorded().last() {
        Some(DriverCall::Breathing(colors, _, _)) => {
            assert_eq!(colors, &vec![RGB::new(9, 8, 7)]);
        },
        other => panic!("expected a breathing call, got {:?}", other),
    }
}

#[test]
fn colors_with_zero_count_is_rejected() {
    let mut kb = fresh();
    let before = kb.save_state();
    assert_eq!(send(&mut kb, &[0x00, 0x00]), vec![0x02]);
    assert_eq!(kb.save_state(), before);
}

#[test]
fn colors_bulk_replaces_sequence() {
    let mut kb = fresh();
    assert_eq!(send(&mut kb, &[0x00, 2, 1, 2, 3, 4, 5, 6]), vec![0x00]);
    let record = kb.save_state();
    assert_eq!(record[4], 2);
    assert_eq!(&record[5..11], &[1, 2, 3, 4, 5, 6]);
}

#[test]
fn colors_truncated_is_rejected_without_mutation() {
    let mut kb = fresh();
    let before = kb.save_state();
    assert_eq!(send(&mut kb, &[0x00, 2, 1, 2, 3]), vec![0x02]);
    assert_eq!(kb.save_state(), before);
}

#[test]
fn add_color_rejected_at_the_256th_entry() {
    let mut kb = fresh();
    // The sequence starts with one color; 254 more keep it within 255.
    for i in 0..254u32 {
        let channel = (i % 256) as u8;
        assert_eq!(send(&mut kb, &[0x02, channel, channel, channel]), vec![0x00]);
    }
    assert_eq!(kb.colors_len(), 255);
    // The 256th entry must be rejected and the sequence left at 255.
    assert_eq!(send(&mut kb, &[0x02, 1, 2, 3]), vec![0x02]);
    assert_eq!(kb.colors_len(), 255);
}

#[test]
fn truncated_set_color_is_rejected() {
    let mut kb = fresh();
    assert_eq!(send(&mut kb, &[0x01, 1, 2]), vec![0x02]);
}

#[test]
fn truncated_brightness_is_rejected() {
    let mut kb = fresh();
    assert_eq!(send(&mut kb, &[0x03]), vec![0x02]);
}

#[test]
fn truncated_power_is_rejected() {
    let mut kb = fresh();
    assert_eq!(send(&mut kb, &[0x07]), vec![0x02]);
}

#[test]
fn invalid_mode_byte_is_rejected() {
    let mut kb = fresh();
    assert_eq!(send(&mut kb, &[0x05, 0x09]), vec![0x02]);
}

#[test]
fn failure_midway_keeps_earlier_mutations() {
    let mut kb = fresh();
    // Brightness applies, then an unknown command rejects the message.
    assert_eq!(send(&mut kb, &[0x03, 42, 0xEE]), vec![0x02]);
    assert_eq!(kb.save_state()[0], 42);
    assert_eq!(kb.driver().recorded_len(), 0);
}

#[test]
fn request_modes_returns_data_payload() {
    let mut kb = fresh();
    assert_eq!(send(&mut kb, &[0x09]), vec![0x03, 3, 0x00, 0x01, 0x02]);
}

#[test]
fn request_modes_is_independent_of_state() {
    let mut kb = fresh();
    assert_eq!(send(&mut kb, &[0x01, 1, 2, 3]), vec![0x00]);
    assert_eq!(send(&mut kb, &[0x07, 1]), vec![0x00]);
    assert_eq!(send(&mut kb, &[0x09]), vec![0x03, 3, 0x00, 0x01, 0x02]);
}

#[test]
fn request_modes_after_mutation_in_one_message() {
    let mut kb = fresh();
    assert_eq!(send(&mut kb, &[0x03, 9, 0x09]), vec![0x03, 3, 0x00, 0x01, 0x02]);
    assert_eq!(kb.save_state()[0], 9);
}

#[test]
fn power_command_sets_and_clears() {
    let mut kb = fresh();
    assert_eq!(send(&mut kb, &[0x07, 1]), vec![0x00]);
    assert_eq!(kb.save_state()[3], 1);
    assert_eq!(send(&mut kb, &[0x07, 0]), vec![0x00]);
    assert_eq!(kb.save_state()[3], 0);
}

#[test]
fn toggle_command_flips_power() {
    let mut kb = fresh();
    assert_eq!(send(&mut kb, &[0x08]), vec![0x00]);
    assert_eq!(kb.save_state()[3], 1);
    assert_eq!(send(&mut kb, &[0x08]), vec![0x00]);
    assert_eq!(kb.save_state()[3], 0);
}

#[test]
fn message_ends_with_exactly_one_sync() {
    let mut kb = fresh();
    assert_eq!(send(&mut kb, &[0x03, 5]), vec![0x00]);
    assert_eq!(kb.driver().recorded_len(), 1);
    assert!(matches!(kb.driver().recorded().last(), Some(DriverCall::Power(false))));
}

#[test]
fn sync_lock_resume_mid_message_syncs_per_mutation() {
    let mut kb = fresh();
    // Resuming auto-sync inside the message makes the following mutation
    // write immediately, and the final sync still follows: two calls.
    assert_eq!(send(&mut kb, &[0x06, 0x00, 0x03, 5]), vec![0x00]);
    assert_eq!(kb.driver().recorded_len(), 2);
}

#[test]
fn sync_lock_suspend_byte_keeps_batching() {
    let mut kb = fresh();
    assert_eq!(send(&mut kb, &[0x06, 0x07, 0x03, 5]), vec![0x00]);
    assert_eq!(kb.driver().recorded_len(), 1);
}

#[test]
fn bad_request_issues_no_hardware_call() {
    let mut kb = fresh();
    kb.unlock_sync();
    assert_eq!(send(&mut kb, &[0x03, 5, 0x05, 0x77]), vec![0x02]);
    assert_eq!(kb.driver().recorded_len(), 0);
}
