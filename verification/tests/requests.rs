use electric_meter::{
    __bytes_should_recv, generate_raw_frame, request_is_encodable, BaudRate, FunctionCode,
    MeterError, MeterIOError,
};

const ADDR: [u8; 6] = [0x00, 0x00, 0x00, 0x00, 0x00, 0x01];

#[test]
fn query_address_goes_to_wildcard() {
    let raw = generate_raw_frame(Some(ADDR), &FunctionCode::MasterQuerySlaveAddr);
    assert_eq!(
        raw.as_ref(),
        &[0x68, 0xAA, 0xAA, 0xAA, 0xAA, 0xAA, 0xAA, 0x68, 0x13, 0x00, 0xDF, 0x16]
    );
}

#[test]
fn set_address_sends_offset_reversed_address() {
    let fc = FunctionCode::MasterSetSlaveAddr([0x12, 0x34, 0x56, 0x78, 0x90, 0x01]);
    let raw = generate_raw_frame(None, &fc);
    assert_eq!(
        raw.as_ref(),
        &[
            0x68, 0xAA, 0xAA, 0xAA, 0xAA, 0xAA, 0xAA, 0x68, 0x15, 0x06, 0x34, 0xC3, 0xAB, 0x89,
            0x67, 0x45, 0xBE, 0x16
        ]
    );
}

#[test]
fn change_baud_rate_frame() {
    let fc = FunctionCode::MasterChangeSlaveBaudRate(BaudRate::Baud9600);
    let raw = generate_raw_frame(Some(ADDR), &fc);
    assert_eq!(
        raw.as_ref(),
        &[0x68, 0x01, 0x00, 0x00, 0x00, 0x00, 0x00, 0x68, 0x17, 0x01, 0x53, 0x3C, 0x16]
    );
}

#[test]
fn energy_a_query_carries_offset_identifier() {
    let raw = generate_raw_frame(Some(ADDR), &FunctionCode::MQueryPhaseAActiveEnergyIM1281X);
    assert_eq!(
        raw.as_ref(),
        &[0x68, 0x01, 0x00, 0x00, 0x00, 0x00, 0x00, 0x68, 0x11, 0x04, 0x34, 0x33, 0xB3, 0xB3, 0xB3, 0x16]
    );
}

#[test]
fn energy_b_query_without_address_uses_default() {
    let raw = generate_raw_frame(None, &FunctionCode::MQueryPhaseBActiveEnergyIM1281X);
    assert_eq!(
        raw.as_ref(),
        &[0x68, 0x11, 0x11, 0x11, 0x11, 0x11, 0x11, 0x68, 0x11, 0x04, 0x35, 0x33, 0xB3, 0xB3, 0x19, 0x16]
    );
}

#[test]
fn temperature_query_frame() {
    let raw = generate_raw_frame(Some(ADDR), &FunctionCode::MQueryTemperature);
    assert_eq!(
        raw.as_ref(),
        &[0x68, 0x01, 0x00, 0x00, 0x00, 0x00, 0x00, 0x68, 0x11, 0x04, 0x3A, 0x33, 0xB3, 0x35, 0x3B, 0x16]
    );
}

#[test]
fn current_query_frame() {
    let raw = generate_raw_frame(Some(ADDR), &FunctionCode::MQueryPhaseACurrent);
    assert_eq!(
        raw.as_ref(),
        &[0x68, 0x01, 0x00, 0x00, 0x00, 0x00, 0x00, 0x68, 0x11, 0x04, 0x33, 0x34, 0x35, 0x35, 0xB7, 0x16]
    );
}

#[test]
fn reset_meter_frame() {
    let raw = generate_raw_frame(Some(ADDR), &FunctionCode::MResetMeter);
    assert_eq!(
        raw.as_ref(),
        &[
            0x68, 0x01, 0x00, 0x00, 0x00, 0x00, 0x00, 0x68, 0x1A, 0x08, 0x33, 0x33, 0x33, 0x33,
            0x33, 0x33, 0x33, 0x33, 0x8B, 0x16
        ]
    );
}

#[test]
fn reply_lengths() {
    assert_eq!(__bytes_should_recv(FunctionCode::MasterQuerySlaveAddr), 18);
    assert_eq!(__bytes_should_recv(FunctionCode::MasterSetSlaveAddr([0; 6])), 12);
    assert_eq!(__bytes_should_recv(FunctionCode::MasterChangeSlaveBaudRate(BaudRate::Baud1200)), 13);
    assert_eq!(__bytes_should_recv(FunctionCode::MQueryPhaseAActiveEnergyIM1281X), 20);
    assert_eq!(__bytes_should_recv(FunctionCode::MQueryPhaseBActiveEnergyIM1281X), 20);
    assert_eq!(__bytes_should_recv(FunctionCode::MQueryTemperature), 18);
    assert_eq!(__bytes_should_recv(FunctionCode::MQueryPhaseACurrent), 19);
    assert_eq!(__bytes_should_recv(FunctionCode::MResetMeter), 12);
}

#[test]
fn encodable_requests() {
    assert!(request_is_encodable(&FunctionCode::MasterSetSlaveAddr([0xCC; 6])));
    assert!(!request_is_encodable(&FunctionCode::MasterSetSlaveAddr([0, 0, 0, 0, 0xCD, 0])));
    assert!(request_is_encodable(&FunctionCode::MQueryTemperature));
}

#[test]
fn io_error_converts() {
    let e: MeterError = MeterError::from(MeterIOError::IncompleteWrite);
    assert_eq!(e, MeterError::IoErr(MeterIOError::IncompleteWrite));
    let e: MeterError = MeterIOError::Std(String::from("timed out")).into();
    assert_eq!(e, MeterError::IoErr(MeterIOError::Std(String::from("timed out"))));
}
