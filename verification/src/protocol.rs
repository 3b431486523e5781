//! The protocol's fixed tables, stated on the wire bytes: which address, code
//! and data bytes each request carries, and what each kind of reply frame
//! decodes to.  Every number here is the one the DL/T 645 meter modules use.
use vstd::prelude::*;
use crate::laws::lemma_frame_bytes_layout;
use crate::spec::{
    byte_sum, checksum_of, frame_checks_pass, frame_decodable, frame_view_of, parse_frame,
    parse_result, payload_decodable, payload_field, payload_result_total, request_encodable,
    request_frame, request_payload, reply_len, FrameView, PayloadView,
};
use crate::types::{BaudRate, FunctionCode, MeterError, MeterResult};

verus! {

/// The check byte of nothing is 0, and each further byte adds to it modulo 256.
pub proof fn law_check_byte(s: Seq<u8>, b: u8)
    ensures
        checksum_of(Seq::<u8>::empty()) == 0,
        checksum_of(s.push(b)) as int == (checksum_of(s) as int + b as int) % 256,
{
    crate::frame::lemma_checksum_push(s, b);
}

/// A set-address request can be encoded exactly when every byte of the new
/// address is at most 0xCC; then each data byte is the address byte plus 0x33,
/// without wrapping.  Every other request can always be encoded.
pub proof fn law_request_encodable(fc: FunctionCode)
    ensures
        match fc {
            FunctionCode::MasterSetSlaveAddr(a) => {
                &&& request_encodable(fc) <==> (a[0] <= 0xCC && a[1] <= 0xCC && a[2] <= 0xCC
                    && a[3] <= 0xCC && a[4] <= 0xCC && a[5] <= 0xCC)
                &&& request_encodable(fc) ==> forall|k: int|
                    0 <= k < 6 ==> payload_field(request_payload(fc))[k] as int == a[5 - k] as int
                        + 0x33
            },
            _ => request_encodable(fc),
        },
{
    match fc {
        FunctionCode::MasterSetSlaveAddr(a) => {
            if a[0] <= 0xCC && a[1] <= 0xCC && a[2] <= 0xCC && a[3] <= 0xCC && a[4] <= 0xCC && a[5]
                <= 0xCC {
                assert forall|i: int| 0 <= i < 6 implies a[i] <= 0xCC by {
                    if i == 0 {
                    } else if i == 1 {
                    } else if i == 2 {
                    } else if i == 3 {
                    } else if i == 4 {
                    } else {
                    }
                }
            }
            if request_encodable(fc) {
                assert(a[0] <= 0xCC && a[1] <= 0xCC && a[2] <= 0xCC);
                assert(a[3] <= 0xCC && a[4] <= 0xCC && a[5] <= 0xCC);
            }
        },
        _ => {},
    }
}

/// The two address requests always go to the wildcard address AA..AA,
/// whatever address is given; every other request goes to the given address,
/// or to 11..11 without one.  Either way the address is sent lowest byte first
/// between two 0x68 bytes.
pub proof fn law_request_destination(addr: Option<[u8; 6]>, fc: FunctionCode)
    ensures
        ({
            let f = request_frame(addr, fc);
            &&& f[0] == 0x68
            &&& f[7] == 0x68
            &&& match fc {
                FunctionCode::MasterQuerySlaveAddr | FunctionCode::MasterSetSlaveAddr(_) => f.subrange(
                    1,
                    7,
                ) == seq![0xAAu8, 0xAA, 0xAA, 0xAA, 0xAA, 0xAA],
                _ => match addr {
                    Some(a) => f.subrange(1, 7) == seq![a[5], a[4], a[3], a[2], a[1], a[0]],
                    None => f.subrange(1, 7) == seq![0x11u8, 0x11, 0x11, 0x11, 0x11, 0x11],
                },
            }
        }),
{
    let field = payload_field(request_payload(fc));
    lemma_request_field_len(fc);
    lemma_frame_bytes_layout(crate::spec::request_address(addr, fc), crate::spec::request_code(fc), field);
    let f = request_frame(addr, fc);
    match fc {
        FunctionCode::MasterQuerySlaveAddr | FunctionCode::MasterSetSlaveAddr(_) => {
            assert(f.subrange(1, 7) =~= seq![0xAAu8, 0xAA, 0xAA, 0xAA, 0xAA, 0xAA]);
        },
        _ => match addr {
            Some(a) => {
                assert(f.subrange(1, 7) =~= seq![a[5], a[4], a[3], a[2], a[1], a[0]]);
            },
            None => {
                assert(f.subrange(1, 7) =~= seq![0x11u8, 0x11, 0x11, 0x11, 0x11, 0x11]);
            },
        },
    }
}

proof fn lemma_request_field_len(fc: FunctionCode)
    ensures
        payload_field(request_payload(fc)).len() <= 8,
{
    match request_payload(fc) {
        Some(p) => {
            assert(p.data.take(p.data_len as int).len() == p.data_len);
        },
        None => {},
    }
}

/// The control code, length byte and data field of each request, byte by
/// byte, followed by the check byte and 0x16: reading the address 13 with no
/// data; setting it 15 with the new address lowest byte first, each byte plus
/// 0x33; changing the rate 17 with 37, 3B, 43 or 53 for 1200, 2400, 4800 or
/// 9600 baud; clearing the meter 1A with eight 33 bytes; and the reads 11 with
/// the identifier plus 33333333, lowest byte first.
pub proof fn law_request_body(addr: Option<[u8; 6]>, fc: FunctionCode)
    requires
        request_encodable(fc),
    ensures
        ({
            let f = request_frame(addr, fc);
            let n = f.len() - 12;
            &&& f[f.len() - 2] == checksum_of(f.subrange(0, f.len() - 2))
            &&& f[f.len() - 1] == 0x16
            &&& f[9] == n
            &&& match fc {
                FunctionCode::MasterQuerySlaveAddr => f[8] == 0x13 && n == 0,
                FunctionCode::MasterSetSlaveAddr(a) => f[8] == 0x15 && n == 6 && f.subrange(10, 16)
                    == seq![
                    (a[5] + 0x33) as u8,
                    (a[4] + 0x33) as u8,
                    (a[3] + 0x33) as u8,
                    (a[2] + 0x33) as u8,
                    (a[1] + 0x33) as u8,
                    (a[0] + 0x33) as u8,
                ],
                FunctionCode::MasterChangeSlaveBaudRate(b) => f[8] == 0x17 && n == 1 && f[10]
                    == match b {
                    BaudRate::Baud1200 => 0x37u8,
                    BaudRate::Baud2400 => 0x3Bu8,
                    BaudRate::Baud4800 => 0x43u8,
                    BaudRate::Baud9600 => 0x53u8,
                },
                FunctionCode::MResetMeter => f[8] == 0x1A && n == 8 && f.subrange(10, 18) == seq![
                    0x33u8,
                    0x33,
                    0x33,
                    0x33,
                    0x33,
                    0x33,
                    0x33,
                    0x33,
                ],
                FunctionCode::MQueryPhaseAActiveEnergyIM1281X => f[8] == 0x11 && n == 4 && f.subrange(
                    10,
                    14,
                ) == seq![0x34u8, 0x33, 0xB3, 0xB3],
                FunctionCode::MQueryPhaseBActiveEnergyIM1281X => f[8] == 0x11 && n == 4 && f.subrange(
                    10,
                    14,
                ) == seq![0x35u8, 0x33, 0xB3, 0xB3],
                FunctionCode::MQueryTemperature => f[8] == 0x11 && n == 4 && f.subrange(10, 14)
                    == seq![0x3Au8, 0x33, 0xB3, 0x35],
                FunctionCode::MQueryPhaseACurrent => f[8] == 0x11 && n == 4 && f.subrange(10, 14)
                    == seq![0x33u8, 0x34, 0x35, 0x35],
            }
        }),
{
    let field = payload_field(request_payload(fc));
    lemma_request_field_len(fc);
    lemma_frame_bytes_layout(crate::spec::request_address(addr, fc), crate::spec::request_code(fc), field);
    let f = request_frame(addr, fc);
    assert(f.subrange(10, 10 + field.len() as int) == field);
    match fc {
        FunctionCode::MasterSetSlaveAddr(a) => {
            assert(field =~= seq![
                (a[5] + 0x33) as u8,
                (a[4] + 0x33) as u8,
                (a[3] + 0x33) as u8,
                (a[2] + 0x33) as u8,
                (a[1] + 0x33) as u8,
                (a[0] + 0x33) as u8,
            ]);
        },
        FunctionCode::MasterChangeSlaveBaudRate(b) => {
            assert(field[0] == f[10]);
        },
        FunctionCode::MResetMeter => {
            assert(field =~= seq![0x33u8, 0x33, 0x33, 0x33, 0x33, 0x33, 0x33, 0x33]);
        },
        FunctionCode::MQueryPhaseAActiveEnergyIM1281X => {
            assert(field =~= seq![0x34u8, 0x33, 0xB3, 0xB3]);
        },
        FunctionCode::MQueryPhaseBActiveEnergyIM1281X => {
            assert(field =~= seq![0x35u8, 0x33, 0xB3, 0xB3]);
        },
        FunctionCode::MQueryTemperature => {
            assert(field =~= seq![0x3Au8, 0x33, 0xB3, 0x35]);
        },
        FunctionCode::MQueryPhaseACurrent => {
            assert(field =~= seq![0x33u8, 0x34, 0x35, 0x35]);
        },
        _ => {},
    }
}

/// Reading the module's address is one fixed frame, whatever address is given:
/// 68 AA AA AA AA AA AA 68 13 00 DF 16.
pub proof fn law_address_query_frame(addr: Option<[u8; 6]>)
    ensures
        request_frame(addr, FunctionCode::MasterQuerySlaveAddr) == seq![
            0x68u8,
            0xAA,
            0xAA,
            0xAA,
            0xAA,
            0xAA,
            0xAA,
            0x68,
            0x13,
            0x00,
            0xDF,
            0x16,
        ],
{
    let fc = FunctionCode::MasterQuerySlaveAddr;
    law_request_destination(addr, fc);
    law_request_body(addr, fc);
    let f = request_frame(addr, fc);
    let body = f.subrange(0, 10);
    assert(body =~= seq![0x68u8, 0xAA, 0xAA, 0xAA, 0xAA, 0xAA, 0xAA, 0x68, 0x13, 0x00]);
    assert(byte_sum(body) == 0x4DF) by {
        reveal_with_fuel(byte_sum, 11);
    }
    assert(f =~= seq![0x68u8, 0xAA, 0xAA, 0xAA, 0xAA, 0xAA, 0xAA, 0x68, 0x13, 0x00, 0xDF, 0x16]);
}

/// Decoding a payload stays within its value ranges for every identifier but
/// the five numeric readings (the two energies, voltage, temperature and
/// current): in particular for the baud-rate identifier 04000703, whatever its
/// data byte.
pub proof fn law_other_identifiers_decode(p: PayloadView)
    requires
        p.data_identifiers matches Some(di) && di != 0x8080_0001 && di != 0x8080_0002 && di
            != 0x0201_0100 && di != 0x0280_0007 && di != 0x0202_0100,
    ensures
        payload_result_total(p),
{
}

// ---------------------------------------------------------------- replies

/// What the reader takes from a frame that passed its checks: the code, the
/// address (lowest byte first on the wire) and the payload bytes.
proof fn lemma_checked_frame(raw: Seq<u8>)
    requires
        frame_checks_pass(raw),
        payload_decodable(raw),
    ensures
        parse_frame(raw) == Ok::<FrameView, MeterError>(frame_view_of(raw)),
        parse_result(raw) == crate::spec::frame_result(frame_view_of(raw)),
        frame_view_of(raw).code == raw[8],
        frame_view_of(raw).addr == [raw[6], raw[5], raw[4], raw[3], raw[2], raw[1]],
        raw[9] == 0 ==> frame_view_of(raw).payload is None,
        raw[9] > 0 && (raw[8] == 0x91 || raw[8] == 0x92) ==> (frame_view_of(raw).payload matches Some(
            p,
        ) && p.data_identifiers == Some(
            (raw[10] + 256 * raw[11] + 65536 * raw[12] + 16777216 * raw[13] - 0x3333_3333) as u32,
        ) && p.data.len() == 11 && (forall|k: int| 0 <= k < raw[9] - 4 ==> p.data[k] == raw[14 + k])
            && (forall|k: int| raw[9] - 4 <= k < 11 ==> p.data[k] == 0)),
        raw[9] > 0 && !(raw[8] == 0x91 || raw[8] == 0x92) ==> (frame_view_of(raw).payload matches Some(
            p,
        ) && p.data_identifiers is None && p.data.len() == 11 && (forall|k: int|
            0 <= k < raw[9] ==> p.data[k] == raw[10 + k]) && (forall|k: int|
            raw[9] <= k < 11 ==> p.data[k] == 0)),
{
    let f = frame_view_of(raw);
    assert(f.addr =~= [raw[6], raw[5], raw[4], raw[3], raw[2], raw[1]]);
}

/// A read-data reply for the baud-rate identifier 04000703 (sent as
/// 36 3A 33 37) always decodes, and its first data byte 04, 08, 10 or 20
/// names 1200, 2400, 4800 or 9600 baud; any other byte is an unknown rate.
pub proof fn law_baud_identifier_reply(raw: Seq<u8>)
    requires
        frame_checks_pass(raw),
        raw[8] == 0x91,
        5 <= raw[9] <= 15,
        10 + raw[9] <= raw.len(),
        raw.subrange(10, 14) == seq![0x36u8, 0x3A, 0x33, 0x37],
    ensures
        frame_decodable(raw),
        parse_result(raw) == if raw[14] == 0x04 {
            Ok::<MeterResult, MeterError>(MeterResult::BaudRate(BaudRate::Baud1200))
        } else if raw[14] == 0x08 {
            Ok(MeterResult::BaudRate(BaudRate::Baud2400))
        } else if raw[14] == 0x10 {
            Ok(MeterResult::BaudRate(BaudRate::Baud4800))
        } else if raw[14] == 0x20 {
            Ok(MeterResult::BaudRate(BaudRate::Baud9600))
        } else {
            Err(MeterError::UnknownBaudrate)
        },
{
    assert(raw[10] == 0x36 && raw[11] == 0x3A && raw[12] == 0x33 && raw[13] == 0x37) by {
        assert(raw.subrange(10, 14)[0] == raw[10]);
        assert(raw.subrange(10, 14)[1] == raw[11]);
        assert(raw.subrange(10, 14)[2] == raw[12]);
        assert(raw.subrange(10, 14)[3] == raw[13]);
    }
    lemma_checked_frame(raw);
}

/// A reply to a rate change (code 97) carrying 37, 3B, 43 or 53 names 1200,
/// 2400, 4800 or 9600 baud (the rate code plus 0x33); any other byte of at
/// least 0x33 is an unknown rate.
pub proof fn law_change_baud_reply(raw: Seq<u8>)
    requires
        frame_checks_pass(raw),
        raw[8] == 0x97,
        1 <= raw[9] <= 11,
        10 + raw[9] <= raw.len(),
        raw[10] >= 0x33,
    ensures
        frame_decodable(raw),
        parse_result(raw) == if raw[10] == 0x37 {
            Ok::<MeterResult, MeterError>(MeterResult::BaudRate(BaudRate::Baud1200))
        } else if raw[10] == 0x3B {
            Ok(MeterResult::BaudRate(BaudRate::Baud2400))
        } else if raw[10] == 0x43 {
            Ok(MeterResult::BaudRate(BaudRate::Baud4800))
        } else if raw[10] == 0x53 {
            Ok(MeterResult::BaudRate(BaudRate::Baud9600))
        } else {
            Err(MeterError::UnknownBaudrate)
        },
{
    lemma_checked_frame(raw);
}

/// The four bytes after a read-data reply's identifier, lowest first.
pub open spec fn reply_word(raw: Seq<u8>) -> int {
    raw[14] + 256 * raw[15] + 65536 * raw[16] + 16777216 * raw[17]
}

/// The two bytes after a read-data reply's identifier, lowest first.
pub open spec fn reply_half(raw: Seq<u8>) -> int {
    raw[14] + 256 * raw[15]
}

/// A read-data reply for the energy of line A (identifier 80800001, sent as
/// 34 33 B3 B3) or of line B (80800002, sent as 35 33 B3 B3) with four data
/// bytes decodes exactly when those bytes, lowest first, are at least
/// 33333333, to their value less 33333333.
pub proof fn law_energy_reply(raw: Seq<u8>)
    requires
        frame_checks_pass(raw),
        raw[8] == 0x91,
        raw[9] == 8,
        raw.len() >= 18,
        raw.subrange(10, 14) == seq![0x34u8, 0x33, 0xB3, 0xB3] || raw.subrange(10, 14) == seq![
            0x35u8,
            0x33,
            0xB3,
            0xB3,
        ],
    ensures
        frame_decodable(raw) <==> reply_word(raw) >= 0x3333_3333,
        reply_word(raw) >= 0x3333_3333 ==> parse_result(raw) == if raw[10] == 0x34 {
            Ok::<MeterResult, MeterError>(
                MeterResult::PhaseAActiveEnergyUnit0_01KWh((reply_word(raw) - 0x3333_3333) as u32),
            )
        } else {
            Ok(MeterResult::PhaseBActiveEnergyUnit0_01KWh((reply_word(raw) - 0x3333_3333) as u32))
        },
{
    assert(raw.subrange(10, 14)[0] == raw[10]);
    assert(raw.subrange(10, 14)[1] == raw[11]);
    assert(raw.subrange(10, 14)[2] == raw[12]);
    assert(raw.subrange(10, 14)[3] == raw[13]);
    lemma_checked_frame(raw);
}

/// A read-data reply for the voltage of line A (identifier 02010100, sent as
/// 33 34 34 35) or for the temperature (02800007, sent as 3A 33 B3 35) with two
/// data bytes decodes exactly when those bytes, lowest first, are at least
/// 3333, to their value less 3333.
pub proof fn law_voltage_temperature_reply(raw: Seq<u8>)
    requires
        frame_checks_pass(raw),
        raw[8] == 0x91,
        raw[9] == 6,
        raw.len() >= 16,
        raw.subrange(10, 14) == seq![0x33u8, 0x34, 0x34, 0x35] || raw.subrange(10, 14) == seq![
            0x3Au8,
            0x33,
            0xB3,
            0x35,
        ],
    ensures
        frame_decodable(raw) <==> reply_half(raw) >= 0x3333,
        reply_half(raw) >= 0x3333 ==> parse_result(raw) == if raw[10] == 0x33 {
            Ok::<MeterResult, MeterError>(
                MeterResult::PhaseAVoltageUnit0_1V((reply_half(raw) - 0x3333) as u16),
            )
        } else {
            Ok(MeterResult::TemperatureUnit0_1C((reply_half(raw) - 0x3333) as u16))
        },
{
    assert(raw.subrange(10, 14)[0] == raw[10]);
    assert(raw.subrange(10, 14)[1] == raw[11]);
    assert(raw.subrange(10, 14)[2] == raw[12]);
    assert(raw.subrange(10, 14)[3] == raw[13]);
    lemma_checked_frame(raw);
}

/// A read-data reply for the current of line A (identifier 02020100, sent as
/// 33 34 35 35) with three data bytes decodes exactly when each is at least
/// 0x33, to the three bytes less 0x33 each, lowest first.
pub proof fn law_current_reply(raw: Seq<u8>)
    requires
        frame_checks_pass(raw),
        raw[8] == 0x91,
        raw[9] == 7,
        raw.len() >= 17,
        raw.subrange(10, 14) == seq![0x33u8, 0x34, 0x35, 0x35],
    ensures
        frame_decodable(raw) <==> (raw[14] >= 0x33 && raw[15] >= 0x33 && raw[16] >= 0x33),
        (raw[14] >= 0x33 && raw[15] >= 0x33 && raw[16] >= 0x33) ==> parse_result(raw) == Ok::<
            MeterResult,
            MeterError,
        >(
            MeterResult::PhaseACurrentmA(
                ((raw[14] - 0x33) + 256 * (raw[15] - 0x33) + 65536 * (raw[16] - 0x33)) as u32,
            ),
        ),
{
    assert(raw.subrange(10, 14)[0] == raw[10]);
    assert(raw.subrange(10, 14)[1] == raw[11]);
    assert(raw.subrange(10, 14)[2] == raw[12]);
    assert(raw.subrange(10, 14)[3] == raw[13]);
    lemma_checked_frame(raw);
}

/// A read-data reply for any other identifier is refused as unsupported,
/// naming the identifier (its four bytes, lowest first, less 33333333).
pub proof fn law_unsupported_identifier_reply(raw: Seq<u8>)
    requires
        frame_checks_pass(raw),
        raw[8] == 0x91,
        4 <= raw[9] <= 15,
        10 + raw[9] <= raw.len(),
        ({
            let di = raw[10] + 256 * raw[11] + 65536 * raw[12] + 16777216 * raw[13] - 0x3333_3333;
            &&& di >= 0
            &&& di != 0x8080_0001 && di != 0x8080_0002 && di != 0x0201_0100
            &&& di != 0x0280_0007 && di != 0x0202_0100 && di != 0x0400_0703
        }),
    ensures
        frame_decodable(raw),
        parse_result(raw) == Err::<MeterResult, MeterError>(
            MeterError::UnsupportedYetDI(
                (raw[10] + 256 * raw[11] + 65536 * raw[12] + 16777216 * raw[13] - 0x3333_3333) as u32,
            ),
        ),
{
    lemma_checked_frame(raw);
}

/// An address reply (code 93) with six data bytes decodes exactly when each
/// is at least 0x33, to the address sent lowest byte first, each byte less
/// 0x33.
pub proof fn law_address_reply(raw: Seq<u8>)
    requires
        frame_checks_pass(raw),
        raw[8] == 0x93,
        raw[9] == 6,
        raw.len() >= 16,
    ensures
        frame_decodable(raw) <==> (forall|k: int| 10 <= k < 16 ==> raw[k] >= 0x33),
        (forall|k: int| 10 <= k < 16 ==> raw[k] >= 0x33) ==> parse_result(raw) == Ok::<
            MeterResult,
            MeterError,
        >(
            MeterResult::MeterAddr(
                [
                    (raw[15] - 0x33) as u8,
                    (raw[14] - 0x33) as u8,
                    (raw[13] - 0x33) as u8,
                    (raw[12] - 0x33) as u8,
                    (raw[11] - 0x33) as u8,
                    (raw[10] - 0x33) as u8,
                ],
            ),
        ),
{
    lemma_checked_frame(raw);
    let p = frame_view_of(raw).payload->0;
    if forall|k: int| 10 <= k < 16 ==> raw[k] >= 0x33 {
        assert forall|i: int| 0 <= i < 6 implies p.data[i] >= 0x33 by {
            assert(raw[10 + i] >= 0x33);
        }
        let decoded = Seq::new(6, |i: int| (p.data[5 - i] - 0x33) as u8);
        assert(crate::spec::arr6(decoded) =~= [
            (raw[15] - 0x33) as u8,
            (raw[14] - 0x33) as u8,
            (raw[13] - 0x33) as u8,
            (raw[12] - 0x33) as u8,
            (raw[11] - 0x33) as u8,
            (raw[10] - 0x33) as u8,
        ]);
    } else {
        let k = choose|k: int| 10 <= k < 16 && raw[k] < 0x33;
        assert(p.data[k - 10] < 0x33);
    }
}

/// The acknowledgements name the address they come from: a set-address reply
/// (code 95) without data, and a clear reply (code 9A), decode to success from
/// the frame's address, sent lowest byte first.
pub proof fn law_acknowledgement_reply(raw: Seq<u8>)
    requires
        frame_checks_pass(raw),
        payload_decodable(raw),
        raw[8] == 0x95 && raw[9] == 0 || raw[8] == 0x9A,
    ensures
        frame_decodable(raw),
        parse_result(raw) == if raw[8] == 0x95 {
            Ok::<MeterResult, MeterError>(
                MeterResult::SetMeterAddrSuccess([raw[6], raw[5], raw[4], raw[3], raw[2], raw[1]]),
            )
        } else {
            Ok(MeterResult::ResetMeterSuccess([raw[6], raw[5], raw[4], raw[3], raw[2], raw[1]]))
        },
{
    lemma_checked_frame(raw);
}

/// The flag bits of a frame that passed its checks decide first: without the
/// slave bit (code below 80) it is not a reply; with the error bit (code C0
/// and up) the meter refused the request; with the follow-up bit (A0 to BF)
/// the reply is unsupported.
pub proof fn law_flag_bits(raw: Seq<u8>)
    requires
        frame_checks_pass(raw),
        payload_decodable(raw),
        raw[8] < 0x80 || raw[8] >= 0xA0,
    ensures
        frame_decodable(raw),
        parse_result(raw) == if raw[8] < 0x80 {
            Err::<MeterResult, MeterError>(MeterError::NotSlaveMessage)
        } else if raw[8] >= 0xC0 {
            Err(MeterError::SlaveAckErr)
        } else {
            Err(MeterError::UnsupportedYetSubsequentDataFollowUpFlag)
        },
{
    lemma_checked_frame(raw);
}

/// The replies to the functions the library does not support, and replies
/// missing or carrying an unexpected payload, are refused with their reason.
pub proof fn law_refused_replies(raw: Seq<u8>)
    requires
        frame_checks_pass(raw),
        payload_decodable(raw),
        0x80 <= raw[8] < 0xA0,
    ensures
        raw[8] == 0x88 ==> parse_result(raw) == Err::<MeterResult, MeterError>(
            MeterError::UnsupportedYetBroadcastTime,
        ),
        raw[8] == 0x92 ==> parse_result(raw) == Err::<MeterResult, MeterError>(
            MeterError::UnsupportedYetReadSubsequentData,
        ),
        raw[8] == 0x94 ==> parse_result(raw) == Err::<MeterResult, MeterError>(
            MeterError::UnsupportedYetWriteData,
        ),
        raw[8] == 0x96 ==> parse_result(raw) == Err::<MeterResult, MeterError>(
            MeterError::UnsupportedFreezeCmd,
        ),
        raw[8] == 0x98 ==> parse_result(raw) == Err::<MeterResult, MeterError>(
            MeterError::UnsupportedYetChangePasswd,
        ),
        raw[8] == 0x99 ==> parse_result(raw) == Err::<MeterResult, MeterError>(
            MeterError::UnsupportedYetResetMaxDemand,
        ),
        raw[8] == 0x9B ==> parse_result(raw) == Err::<MeterResult, MeterError>(
            MeterError::UnsupportedYetResetEvent,
        ),
        !(raw[8] == 0x88 || 0x91 <= raw[8] <= 0x9B) ==> parse_result(raw) == Err::<
            MeterResult,
            MeterError,
        >(MeterError::ReservedCode),
        raw[9] == 0 && (raw[8] == 0x91 || raw[8] == 0x97) ==> parse_result(raw) == Err::<
            MeterResult,
            MeterError,
        >(MeterError::UnExpectedNonePayload),
        raw[9] == 0 && raw[8] == 0x93 ==> parse_result(raw) == Err::<MeterResult, MeterError>(
            MeterError::UnExpectedNoneAddr,
        ),
        raw[9] != 0 && raw[8] == 0x95 ==> parse_result(raw) == Err::<MeterResult, MeterError>(
            MeterError::UnExpectedPayload,
        ),
{
    lemma_checked_frame(raw);
}

/// A reader refuses a frame with fewer than 12 bytes or without its two 0x68
/// start bytes as bad data, then one whose byte before last is not the check
/// byte of all before it as a check error, then one not ending in 0x16 as bad
/// data; every frame so refused is decodable (to that error).
pub proof fn law_framing_errors(raw: Seq<u8>)
    ensures
        !frame_checks_pass(raw) ==> frame_decodable(raw),
        (raw.len() < 12 || raw[0] != 0x68 || raw[7] != 0x68) ==> parse_result(raw) == Err::<
            MeterResult,
            MeterError,
        >(MeterError::BadData),
        (raw.len() >= 12 && raw[0] == 0x68 && raw[7] == 0x68 && raw[raw.len() - 2]
            != checksum_of(raw.subrange(0, raw.len() - 2))) ==> parse_result(raw) == Err::<
            MeterResult,
            MeterError,
        >(MeterError::ErrCRC),
        (raw.len() >= 12 && raw[0] == 0x68 && raw[7] == 0x68 && raw[raw.len() - 2]
            == checksum_of(raw.subrange(0, raw.len() - 2)) && raw[raw.len() - 1] != 0x16)
            ==> parse_result(raw) == Err::<MeterResult, MeterError>(MeterError::BadData),
{
}

/// The master waits for 12 framing bytes plus the reply's data field: six
/// address bytes after an address query; nothing after a set-address or a
/// clear; the rate byte after a rate change; and after a read, the four
/// identifier bytes and the value's four energy, three current or two
/// temperature bytes.
pub proof fn law_reply_lengths()
    ensures
        reply_len(FunctionCode::MasterQuerySlaveAddr) == 12 + 6,
        forall|a: [u8; 6]| #[trigger] reply_len(FunctionCode::MasterSetSlaveAddr(a)) == 12,
        forall|b: BaudRate| #[trigger] reply_len(FunctionCode::MasterChangeSlaveBaudRate(b)) == 12 + 1,
        reply_len(FunctionCode::MResetMeter) == 12,
        reply_len(FunctionCode::MQueryPhaseAActiveEnergyIM1281X) == 12 + 4 + 4,
        reply_len(FunctionCode::MQueryPhaseBActiveEnergyIM1281X) == 12 + 4 + 4,
        reply_len(FunctionCode::MQueryPhaseACurrent) == 12 + 4 + 3,
        reply_len(FunctionCode::MQueryTemperature) == 12 + 4 + 2,
{
}

} // verus!
