use electric_meter::{
    __bytes_should_recv, frame_is_decodable, generate_raw_frame, parse_result_from_raw_frame,
    BaudRate, FunctionCode, MeterError, MeterResult,
};

#[test]
fn every_request_is_read_back_as_not_a_reply() {
    let requests = vec![
        FunctionCode::MasterQuerySlaveAddr,
        FunctionCode::MasterSetSlaveAddr([0x12, 0x34, 0x56, 0x78, 0x90, 0x01]),
        FunctionCode::MasterChangeSlaveBaudRate(BaudRate::Baud4800),
        FunctionCode::MResetMeter,
        FunctionCode::MQueryPhaseACurrent,
        FunctionCode::MQueryPhaseAActiveEnergyIM1281X,
        FunctionCode::MQueryPhaseBActiveEnergyIM1281X,
        FunctionCode::MQueryTemperature,
    ];
    for fc in requests.iter() {
        let raw = generate_raw_frame(Some([1, 2, 3, 4, 5, 6]), fc);
        assert!(frame_is_decodable(raw.as_ref()));
        assert_eq!(parse_result_from_raw_frame(raw.as_ref()), Err(MeterError::NotSlaveMessage));
    }
}

#[test]
fn a_meter_echoing_the_new_address_reads_back_as_it() {
    let new_addr = [0x12, 0x34, 0x56, 0x78, 0x90, 0x01];
    let request = generate_raw_frame(None, &FunctionCode::MasterSetSlaveAddr(new_addr));
    let bytes = request.as_ref();
    // the meter answers an address query with the data field it was given
    let mut reply = vec![0x68, 0xAA, 0xAA, 0xAA, 0xAA, 0xAA, 0xAA, 0x68, 0x93, 0x06];
    reply.extend_from_slice(&bytes[10..16]);
    let cs = reply.iter().fold(0u8, |acc, b| acc.wrapping_add(*b));
    reply.push(cs);
    reply.push(0x16);
    assert_eq!(reply.len(), __bytes_should_recv(FunctionCode::MasterQuerySlaveAddr));
    assert!(frame_is_decodable(&reply));
    assert_eq!(parse_result_from_raw_frame(&reply), Ok(MeterResult::MeterAddr(new_addr)));
}

#[test]
fn any_altered_byte_is_refused() {
    let good = [0x68, 0x01, 0x00, 0x00, 0x00, 0x00, 0x00, 0x68, 0x97, 0x01, 0x53, 0xBC, 0x16];
    assert!(parse_result_from_raw_frame(&good).is_ok());
    for i in 0..good.len() {
        let mut bad = good;
        bad[i] = bad[i].wrapping_add(0x5A);
        assert!(frame_is_decodable(&bad));
        let r = parse_result_from_raw_frame(&bad);
        assert!(r == Err(MeterError::ErrCRC) || r == Err(MeterError::BadData));
    }
}
