use klmd::color::RGB;
use klmd::driver::{modes_to_u8_vec, KeyboardMode};
use klmd::ms1563::{encode_multi, encode_power_off, encode_steady};
use klmd::keyboard::KeyboardState;
use klmd::proto::{ProtoCmd, ProtoKeyboardMode};
use klmd::response::{ProtoResponse, ProtoResponseState};

#[test]
fn steady_report_is_bit_exact() {
    let report = encode_steady(&RGB::new(0x11, 0x22, 0x33), 4);
    let mut expected = vec![0u8; 64];
    expected[0] = 0x02;
    expected[2] = 0x01;
    expected[4] = 4;
    expected[5] = 0x01;
    expected[6] = 0x11;
    expected[7] = 0x22;
    expected[8] = 0x33;
    assert_eq!(report, expected);
}

#[test]
fn steady_report_clamps_brightness() {
    let report = encode_steady(&RGB::new(1, 1, 1), 200);
    assert_eq!(report[4], 10);
}

#[test]
fn breathing_report_is_bit_exact() {
    let colors = vec![RGB::new(1, 2, 3), RGB::new(4, 5, 6)];
    let report = encode_multi(0x02, &colors, 9, 1);
    let mut expected = vec![0u8; 64];
    expected[0] = 0x02;
    expected[2] = 0x02;
    expected[3] = 1;
    expected[4] = 9;
    expected[5] = 2;
    expected[6..12].copy_from_slice(&[1, 2, 3, 4, 5, 6]);
    assert_eq!(report, expected);
}

#[test]
fn shift_report_clamps_speed_and_brightness() {
    let colors = vec![RGB::new(7, 7, 7)];
    let report = encode_multi(0x05, &colors, 99, 9);
    assert_eq!(report[2], 0x05);
    assert_eq!(report[3], 2);
    assert_eq!(report[4], 10);
    assert_eq!(report[5], 1);
}

#[test]
fn power_off_report_is_report_id_only() {
    let report = encode_power_off();
    let mut expected = vec![0u8; 64];
    expected[0] = 0x02;
    assert_eq!(report, expected);
}

#[test]
fn response_status_bytes() {
    assert_eq!(ProtoResponseState::ResultOk.to_u8(), 0x00);
    assert_eq!(ProtoResponseState::ResultError.to_u8(), 0x01);
    assert_eq!(ProtoResponseState::ResultBadRequest.to_u8(), 0x02);
    assert_eq!(ProtoResponseState::ResultData.to_u8(), 0x03);
}

#[test]
fn response_status_byte_accessor() {
    let r = ProtoResponse::from_state(ProtoResponseState::ResultError);
    assert_eq!(r.to_u8(), 0x01);
    let mut r = ProtoResponse::from_state(ProtoResponseState::ResultOk);
    r.add_response(vec![1]);
    assert_eq!(r.to_u8(), 0x03);
}

#[test]
fn status_response_encodes_as_one_byte() {
    let r = ProtoResponse::from_state(ProtoResponseState::ResultOk);
    assert_eq!(r.to_u8_vec(), vec![0x00]);
    let r = ProtoResponse::from_state(ProtoResponseState::ResultBadRequest);
    assert_eq!(r.to_u8_vec(), vec![0x02]);
}

#[test]
fn data_response_carries_tag_length_payload() {
    let mut r = ProtoResponse::from_state(ProtoResponseState::ResultError);
    r.add_response(vec![0xAA, 0xBB]);
    assert_eq!(r.payload_len(), 2);
    assert_eq!(r.to_u8_vec(), vec![0x03, 2, 0xAA, 0xBB]);
}

#[test]
fn data_response_accumulates_payloads() {
    let mut r = ProtoResponse::from_state(ProtoResponseState::ResultError);
    r.add_response(vec![1]);
    r.add_response(vec![2, 3]);
    assert_eq!(r.to_u8_vec(), vec![0x03, 3, 1, 2, 3]);
}

#[test]
fn proto_cmd_decodes_all_ten_commands() {
    assert_eq!(ProtoCmd::from_u8(0x00), Some(ProtoCmd::CmdColors));
    assert_eq!(ProtoCmd::from_u8(0x01), Some(ProtoCmd::CmdSetColor));
    assert_eq!(ProtoCmd::from_u8(0x02), Some(ProtoCmd::CmdAddColor));
    assert_eq!(ProtoCmd::from_u8(0x03), Some(ProtoCmd::CmdBrightness));
    assert_eq!(ProtoCmd::from_u8(0x04), Some(ProtoCmd::CmdSpeed));
    assert_eq!(ProtoCmd::from_u8(0x05), Some(ProtoCmd::CmdMode));
    assert_eq!(ProtoCmd::from_u8(0x06), Some(ProtoCmd::CmdSyncState));
    assert_eq!(ProtoCmd::from_u8(0x07), Some(ProtoCmd::CmdPower));
    assert_eq!(ProtoCmd::from_u8(0x08), Some(ProtoCmd::CmdToggle));
    assert_eq!(ProtoCmd::from_u8(0x09), Some(ProtoCmd::CmdReqModesAvail));
    assert_eq!(ProtoCmd::from_u8(0x0A), None);
    assert_eq!(ProtoCmd::from_u8(0xFF), None);
}

#[test]
fn proto_mode_maps_to_controller_state() {
    assert_eq!(ProtoKeyboardMode::from_u8(0).unwrap().to_state(), KeyboardState::KeyboardOff);
    assert_eq!(ProtoKeyboardMode::from_u8(1).unwrap().to_state(), KeyboardState::KeyboardSteady);
    assert_eq!(ProtoKeyboardMode::from_u8(2).unwrap().to_state(), KeyboardState::KeyboardBreathing);
    assert_eq!(
        ProtoKeyboardMode::from_u8(3).unwrap().to_state(),
        KeyboardState::KeyboardColorShift
    );
    assert!(ProtoKeyboardMode::from_u8(4).is_none());
}

#[test]
fn keyboard_mode_wire_bytes() {
    assert_eq!(KeyboardMode::ModeSteady.to_u8(), 0x00);
    assert_eq!(KeyboardMode::ModeBreathing.to_u8(), 0x01);
    assert_eq!(KeyboardMode::ModeColorshift.to_u8(), 0x02);
    let all = vec![
        KeyboardMode::ModeSteady,
        KeyboardMode::ModeBreathing,
        KeyboardMode::ModeColorshift,
    ];
    assert_eq!(modes_to_u8_vec(&all), vec![0, 1, 2]);
}

#[test]
fn rgb_new_keeps_channels() {
    let c = RGB::new(9, 8, 7);
    assert_eq!((c.r, c.g, c.b), (9, 8, 7));
}

#[test]
fn rgb_printable_form() {
    assert_eq!(RGB::new(255, 0, 16).to_s(), "<RGB: 255, 0, 16>");
    assert_eq!(RGB::new(7, 99, 100).to_s(), "<RGB: 7, 99, 100>");
}
