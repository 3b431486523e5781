use electric_meter::{frame_is_decodable, parse_result_from_raw_frame, BaudRate, MeterError, MeterResult};

fn decode(buf: &[u8]) -> Result<MeterResult, MeterError> {
    assert!(frame_is_decodable(buf));
    parse_result_from_raw_frame(buf)
}

#[test]
fn energy_a_reply() {
    let buf = [
        0x68, 0x01, 0x00, 0x00, 0x00, 0x00, 0x00, 0x68, 0x91, 0x08, 0x34, 0x33, 0xB3, 0xB3, 0xBA,
        0x09, 0x46, 0x33, 0x73, 0x16,
    ];
    assert_eq!(decode(&buf), Ok(MeterResult::PhaseAActiveEnergyUnit0_01KWh(1234567)));
}

#[test]
fn voltage_reply() {
    let buf = [
        0x68, 0x01, 0x00, 0x00, 0x00, 0x00, 0x00, 0x68, 0x91, 0x06, 0x33, 0x34, 0x34, 0x35, 0xCC,
        0x3B, 0x3F, 0x16,
    ];
    assert_eq!(decode(&buf), Ok(MeterResult::PhaseAVoltageUnit0_1V(2201)));
}

#[test]
fn current_reply() {
    let buf = [
        0x68, 0x01, 0x00, 0x00, 0x00, 0x00, 0x00, 0x68, 0x91, 0x07, 0x33, 0x34, 0x35, 0x35, 0x78,
        0x56, 0x34, 0x3C, 0x16,
    ];
    assert_eq!(decode(&buf), Ok(MeterResult::PhaseACurrentmA(0x012345)));
}

#[test]
fn temperature_reply() {
    let buf = [
        0x68, 0x01, 0x00, 0x00, 0x00, 0x00, 0x00, 0x68, 0x91, 0x06, 0x3A, 0x33, 0xB3, 0x35, 0x30,
        0x34, 0x21, 0x16,
    ];
    assert_eq!(decode(&buf), Ok(MeterResult::TemperatureUnit0_1C(253)));
}

#[test]
fn address_reply() {
    let buf = [
        0x68, 0xAA, 0xAA, 0xAA, 0xAA, 0xAA, 0xAA, 0x68, 0x93, 0x06, 0x34, 0x33, 0x33, 0x33, 0x33,
        0x33, 0x98, 0x16,
    ];
    assert_eq!(decode(&buf), Ok(MeterResult::MeterAddr([0, 0, 0, 0, 0, 1])));
}

#[test]
fn set_address_acknowledged() {
    let buf = [0x68, 0x01, 0x00, 0x00, 0x00, 0x00, 0x00, 0x68, 0x95, 0x00, 0x66, 0x16];
    assert_eq!(decode(&buf), Ok(MeterResult::SetMeterAddrSuccess([0, 0, 0, 0, 0, 1])));
}

#[test]
fn reset_acknowledged() {
    let buf = [0x68, 0x01, 0x00, 0x00, 0x00, 0x00, 0x00, 0x68, 0x9A, 0x00, 0x6B, 0x16];
    assert_eq!(decode(&buf), Ok(MeterResult::ResetMeterSuccess([0, 0, 0, 0, 0, 1])));
}

#[test]
fn baud_rate_reply() {
    let buf = [0x68, 0x01, 0x00, 0x00, 0x00, 0x00, 0x00, 0x68, 0x97, 0x01, 0x53, 0xBC, 0x16];
    assert_eq!(decode(&buf), Ok(MeterResult::BaudRate(BaudRate::Baud9600)));
}

#[test]
fn baud_rate_read_by_identifier() {
    let buf = [
        0x68, 0x01, 0x00, 0x00, 0x00, 0x00, 0x00, 0x68, 0x91, 0x05, 0x36, 0x3A, 0x33, 0x37, 0x08,
        0x49, 0x16,
    ];
    assert_eq!(decode(&buf), Ok(MeterResult::BaudRate(BaudRate::Baud2400)));
}

#[test]
fn too_short_is_bad_data() {
    assert_eq!(decode(&[0x68, 0x01, 0x16]), Err(MeterError::BadData));
}

#[test]
fn wrong_start_is_bad_data() {
    let buf = [0x67, 0x01, 0x00, 0x00, 0x00, 0x00, 0x00, 0x68, 0x95, 0x00, 0x65, 0x16];
    assert_eq!(decode(&buf), Err(MeterError::BadData));
}

#[test]
fn wrong_check_byte_is_crc_error() {
    let buf = [0x68, 0x01, 0x00, 0x00, 0x00, 0x00, 0x00, 0x68, 0x95, 0x00, 0x67, 0x16];
    assert_eq!(decode(&buf), Err(MeterError::ErrCRC));
}

#[test]
fn wrong_end_is_bad_data() {
    let buf = [0x68, 0x01, 0x00, 0x00, 0x00, 0x00, 0x00, 0x68, 0x95, 0x00, 0x66, 0x17];
    assert_eq!(decode(&buf), Err(MeterError::BadData));
}

#[test]
fn master_frame_is_not_a_reply() {
    let buf = [0x68, 0xAA, 0xAA, 0xAA, 0xAA, 0xAA, 0xAA, 0x68, 0x13, 0x00, 0xDF, 0x16];
    assert_eq!(decode(&buf), Err(MeterError::NotSlaveMessage));
}

#[test]
fn refused_request_is_ack_error() {
    let buf = [0x68, 0x01, 0x00, 0x00, 0x00, 0x00, 0x00, 0x68, 0xD1, 0x01, 0x35, 0xD8, 0x16];
    assert_eq!(decode(&buf), Err(MeterError::SlaveAckErr));
}

#[test]
fn follow_up_flag_unsupported() {
    let buf = [0x68, 0x01, 0x00, 0x00, 0x00, 0x00, 0x00, 0x68, 0xB1, 0x00, 0x82, 0x16];
    assert_eq!(decode(&buf), Err(MeterError::UnsupportedYetSubsequentDataFollowUpFlag));
}

#[test]
fn reserved_code() {
    let buf = [0x68, 0x01, 0x00, 0x00, 0x00, 0x00, 0x00, 0x68, 0x80, 0x00, 0x51, 0x16];
    assert_eq!(decode(&buf), Err(MeterError::ReservedCode));
}

#[test]
fn freeze_unsupported() {
    let buf = [0x68, 0x01, 0x00, 0x00, 0x00, 0x00, 0x00, 0x68, 0x96, 0x00, 0x67, 0x16];
    assert_eq!(decode(&buf), Err(MeterError::UnsupportedFreezeCmd));
}

#[test]
fn read_data_without_payload() {
    let buf = [0x68, 0x01, 0x00, 0x00, 0x00, 0x00, 0x00, 0x68, 0x91, 0x00, 0x62, 0x16];
    assert_eq!(decode(&buf), Err(MeterError::UnExpectedNonePayload));
}

#[test]
fn address_reply_without_payload() {
    let buf = [0x68, 0x01, 0x00, 0x00, 0x00, 0x00, 0x00, 0x68, 0x93, 0x00, 0x64, 0x16];
    assert_eq!(decode(&buf), Err(MeterError::UnExpectedNoneAddr));
}

#[test]
fn set_address_with_payload() {
    let buf = [0x68, 0x01, 0x00, 0x00, 0x00, 0x00, 0x00, 0x68, 0x95, 0x01, 0x33, 0x9A, 0x16];
    assert_eq!(decode(&buf), Err(MeterError::UnExpectedPayload));
}

#[test]
fn unknown_baud_rate() {
    let buf = [0x68, 0x01, 0x00, 0x00, 0x00, 0x00, 0x00, 0x68, 0x97, 0x01, 0x33, 0x9C, 0x16];
    assert_eq!(decode(&buf), Err(MeterError::UnknownBaudrate));
}

#[test]
fn baud_reply_without_payload() {
    let buf = [0x68, 0x01, 0x00, 0x00, 0x00, 0x00, 0x00, 0x68, 0x97, 0x00, 0x68, 0x16];
    assert_eq!(decode(&buf), Err(MeterError::UnExpectedNonePayload));
}

#[test]
fn unknown_identifier() {
    let buf = [
        0x68, 0x01, 0x00, 0x00, 0x00, 0x00, 0x00, 0x68, 0x91, 0x05, 0x37, 0x36, 0x35, 0x34, 0x33,
        0x70, 0x16,
    ];
    assert_eq!(decode(&buf), Err(MeterError::UnsupportedYetDI(0x0102_0304)));
}

#[test]
fn undecodable_frames_are_told() {
    // address bytes below their 0x33 offset
    let low = [
        0x68, 0xAA, 0xAA, 0xAA, 0xAA, 0xAA, 0xAA, 0x68, 0x93, 0x06, 0x10, 0x10, 0x10, 0x10, 0x10,
        0x10, 0xC5, 0x16,
    ];
    assert!(!frame_is_decodable(&low));
    // an identifier reply too short to hold its identifier
    let short = [0x68, 0x01, 0x00, 0x00, 0x00, 0x00, 0x00, 0x68, 0x91, 0x02, 0x34, 0x33, 0xCB, 0x16];
    assert!(!frame_is_decodable(&short));
    // a frame refused by its checks decodes (to an error)
    assert!(frame_is_decodable(&[0x00; 5]));
}
