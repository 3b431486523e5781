//! The mathematical model of the protocol: frame layout, checksum, the payload
//! codec, and what a frame decodes to.  Every contract of the library is stated
//! over these definitions.
use vstd::prelude::*;
use crate::types::{BaudRate, FunctionCode, MeterError, MeterResult};

verus! {

/// Data identifier: total active energy of line A (IM1281X).
pub const DI_IM1281X_PHASE_A_ACTIVE_ENERGY: u32 = 0x8080_0001;
/// Data identifier: total active energy of line B (IM1281X).
pub const DI_IM1281X_PHASE_B_ACTIVE_ENERGY: u32 = 0x8080_0002;
/// Data identifier: voltage of line A.
pub const DI_DLT645_PHASE_A_VOLTAGE: u32 = 0x0201_0100;
/// Data identifier: current of line A.
pub const DI_DLT645_PHASE_A_CURRENT: u32 = 0x0202_0100;
/// Data identifier: temperature.
pub const DI_DLT645_TEMPERATURE: u32 = 0x0280_0007;
/// Data identifier: baud rate (IM1281X).
pub const DI_IM1281X_BAUD_RATE: u32 = 0x0400_0703;

// ---------------------------------------------------------------- bytes

/// Sum of the bytes of `s`, as a natural number.
pub open spec fn byte_sum(s: Seq<u8>) -> nat
    decreases s.len(),
{
    if s.len() == 0 {
        0
    } else {
        byte_sum(s.drop_last()) + s.last() as nat
    }
}

/// The DL/T 645 check byte: the sum of the bytes modulo 256.
pub open spec fn checksum_of(s: Seq<u8>) -> u8 {
    (byte_sum(s) % 256) as u8
}

/// The little-endian value of the first two bytes of `b`.
pub open spec fn le_u16(b: Seq<u8>) -> int {
    b[0] + 256 * b[1]
}

/// The little-endian value of the first four bytes of `b`.
pub open spec fn le_u32(b: Seq<u8>) -> int {
    b[0] + 256 * b[1] + 65536 * b[2] + 16777216 * b[3]
}

/// The four little-endian bytes of `v`.
pub open spec fn le_bytes_u32(v: u32) -> Seq<u8> {
    seq![(v % 256) as u8, (v / 256 % 256) as u8, (v / 65536 % 256) as u8, (v / 16777216) as u8]
}

/// The six-byte array holding the first six elements of `s`.
pub open spec fn arr6(s: Seq<u8>) -> [u8; 6] {
    [s[0], s[1], s[2], s[3], s[4], s[5]]
}

/// `s` followed by zeros up to the eleven bytes of a payload buffer.
pub open spec fn zero_pad(s: Seq<u8>) -> Seq<u8> {
    s + Seq::new((11 - s.len()) as nat, |i: int| 0u8)
}

// ---------------------------------------------------------------- frames

/// A frame on the wire: `68 A0..A5 68 C L DATA CS 16`, the address sent lowest
/// byte first (the reverse of how it is written), `L` the length of the data
/// field and `CS` the check byte of everything before it.
pub open spec fn frame_bytes(addr: [u8; 6], code: u8, field: Seq<u8>) -> Seq<u8> {
    let body = seq![0x68u8] + addr@.reverse() + seq![0x68u8, code, field.len() as u8] + field;
    body.push(checksum_of(body)).push(0x16u8)
}

/// The payload of a frame: an optional data identifier and up to eleven data
/// bytes, of which the first `data_len` are meaningful.
pub struct PayloadView {
    pub data_identifiers: Option<u32>,
    pub data_len: u8,
    pub data: Seq<u8>,
}

/// A frame as the library holds it.
pub struct FrameView {
    pub addr: [u8; 6],
    pub code: u8,
    pub payload_len: u8,
    pub payload: Option<PayloadView>,
}

/// The data field that a payload is sent as: the identifier plus 0x33 in each
/// byte (little endian), then the meaningful data bytes.
pub open spec fn payload_field(p: Option<PayloadView>) -> Seq<u8> {
    match p {
        None => Seq::empty(),
        Some(p) => match p.data_identifiers {
            Some(di) => le_bytes_u32((di + 0x3333_3333) as u32) + p.data.take(p.data_len as int),
            None => p.data.take(p.data_len as int),
        },
    }
}

// ---------------------------------------------------------------- requests

/// The control code of the request for `fc`.
pub open spec fn request_code(fc: FunctionCode) -> u8 {
    match fc {
        FunctionCode::MasterQuerySlaveAddr => 0x13,
        FunctionCode::MasterSetSlaveAddr(_) => 0x15,
        FunctionCode::MasterChangeSlaveBaudRate(_) => 0x17,
        FunctionCode::MResetMeter => 0x1A,
        _ => 0x11,
    }
}

/// The address a request for `fc` is sent to: the wildcard address for the two
/// address requests, otherwise the given address or, without one, 11..11.
pub open spec fn request_address(addr: Option<[u8; 6]>, fc: FunctionCode) -> [u8; 6] {
    match fc {
        FunctionCode::MasterQuerySlaveAddr => [0xAAu8, 0xAA, 0xAA, 0xAA, 0xAA, 0xAA],
        FunctionCode::MasterSetSlaveAddr(_) => [0xAAu8, 0xAA, 0xAA, 0xAA, 0xAA, 0xAA],
        _ => match addr {
            Some(a) => a,
            None => [0x11u8, 0x11, 0x11, 0x11, 0x11, 0x11],
        },
    }
}

/// The number that stands for a baud rate in frames.
pub open spec fn baud_code(b: BaudRate) -> u8 {
    match b {
        BaudRate::Baud1200 => 0x04,
        BaudRate::Baud2400 => 0x08,
        BaudRate::Baud4800 => 0x10,
        BaudRate::Baud9600 => 0x20,
    }
}

/// The baud rate a number stands for, if any.
pub open spec fn baud_of_code(c: int) -> Option<BaudRate> {
    if c == 0x04 {
        Some(BaudRate::Baud1200)
    } else if c == 0x08 {
        Some(BaudRate::Baud2400)
    } else if c == 0x10 {
        Some(BaudRate::Baud4800)
    } else if c == 0x20 {
        Some(BaudRate::Baud9600)
    } else {
        None
    }
}

/// A payload that asks for the data identifier `di` and carries no data.
pub open spec fn query_payload(di: u32) -> Option<PayloadView> {
    Some(PayloadView { data_identifiers: Some(di), data_len: 0, data: Seq::new(11, |i: int| 0u8) })
}

/// The payload of the request for `fc`.
pub open spec fn request_payload(fc: FunctionCode) -> Option<PayloadView> {
    match fc {
        FunctionCode::MasterQuerySlaveAddr => None,
        FunctionCode::MasterSetSlaveAddr(a) => Some(
            PayloadView {
                data_identifiers: None,
                data_len: 6,
                data: Seq::new(11, |i: int| if i < 6 { (a[5 - i] + 0x33) as u8 } else { 0u8 }),
            },
        ),
        FunctionCode::MasterChangeSlaveBaudRate(b) => Some(
            PayloadView {
                data_identifiers: None,
                data_len: 1,
                data: Seq::new(11, |i: int| if i == 0 { (baud_code(b) + 0x33) as u8 } else { 0u8 }),
            },
        ),
        FunctionCode::MResetMeter => Some(
            PayloadView {
                data_identifiers: None,
                data_len: 8,
                data: Seq::new(11, |i: int| if i < 8 { 0x33u8 } else { 0u8 }),
            },
        ),
        FunctionCode::MQueryPhaseACurrent => query_payload(DI_DLT645_PHASE_A_CURRENT),
        FunctionCode::MQueryPhaseAActiveEnergyIM1281X => query_payload(
            DI_IM1281X_PHASE_A_ACTIVE_ENERGY,
        ),
        FunctionCode::MQueryPhaseBActiveEnergyIM1281X => query_payload(
            DI_IM1281X_PHASE_B_ACTIVE_ENERGY,
        ),
        FunctionCode::MQueryTemperature => query_payload(DI_DLT645_TEMPERATURE),
    }
}

/// A request can be encoded: a new address must fit the +0x33 byte offset.
pub open spec fn request_encodable(fc: FunctionCode) -> bool {
    match fc {
        FunctionCode::MasterSetSlaveAddr(a) => forall|i: int| 0 <= i < 6 ==> a[i] <= 0xCC,
        _ => true,
    }
}

/// The bytes of the request frame for `fc`.
pub open spec fn request_frame(addr: Option<[u8; 6]>, fc: FunctionCode) -> Seq<u8> {
    frame_bytes(
        request_address(addr, fc),
        request_code(fc),
        payload_field(request_payload(fc)),
    )
}

/// How many bytes the reply to `fc` has: 12 framing bytes plus its data field.
pub open spec fn reply_len(fc: FunctionCode) -> nat {
    match fc {
        FunctionCode::MasterQuerySlaveAddr => 12 + 6,
        FunctionCode::MasterSetSlaveAddr(_) => 12,
        FunctionCode::MasterChangeSlaveBaudRate(_) => 12 + 1,
        FunctionCode::MQueryPhaseAActiveEnergyIM1281X => 12 + 4 + 4,
        FunctionCode::MQueryPhaseBActiveEnergyIM1281X => 12 + 4 + 4,
        FunctionCode::MQueryTemperature => 12 + 4 + 2,
        FunctionCode::MQueryPhaseACurrent => 12 + 4 + 3,
        FunctionCode::MResetMeter => 12,
    }
}

// ---------------------------------------------------------------- parsing

/// The framing checks a received frame must pass: at least 12 bytes, the two
/// start bytes, the check byte and the end byte.
pub open spec fn frame_checks_pass(raw: Seq<u8>) -> bool {
    &&& raw.len() >= 12
    &&& raw[0] == 0x68
    &&& raw[7] == 0x68
    &&& checksum_of(raw.subrange(0, raw.len() - 2)) == raw[raw.len() - 2]
    &&& raw[raw.len() - 1] == 0x16
}

/// Reply codes whose data field starts with a data identifier.
pub open spec fn is_di_reply_code(code: u8) -> bool {
    code == 0x91 || code == 0x92
}

/// The payload read from a frame that passed its checks.
pub open spec fn parsed_payload(raw: Seq<u8>) -> Option<PayloadView> {
    let l = raw[9];
    if l == 0 {
        None
    } else if is_di_reply_code(raw[8]) {
        let data_len = (l - 4) as u8;
        Some(
            PayloadView {
                data_identifiers: Some((le_u32(raw.subrange(10, 14)) - 0x3333_3333) as u32),
                data_len,
                data: zero_pad(raw.subrange(14, 14 + data_len)),
            },
        )
    } else {
        Some(
            PayloadView {
                data_identifiers: None,
                data_len: l,
                data: zero_pad(raw.subrange(10, 10 + l)),
            },
        )
    }
}

/// The frame read from bytes that passed the checks.
pub open spec fn frame_view_of(raw: Seq<u8>) -> FrameView {
    FrameView {
        addr: arr6(raw.subrange(1, 7).reverse()),
        code: raw[8],
        payload_len: if raw[9] == 0 { 0u8 } else { (raw[9] + 1) as u8 },
        payload: parsed_payload(raw),
    }
}

/// What reading a frame from `raw` gives.
pub open spec fn parse_frame(raw: Seq<u8>) -> Result<FrameView, MeterError> {
    if raw.len() < 12 || raw[0] != 0x68 || raw[7] != 0x68 {
        Err(MeterError::BadData)
    } else if checksum_of(raw.subrange(0, raw.len() - 2)) != raw[raw.len() - 2] {
        Err(MeterError::ErrCRC)
    } else if raw[raw.len() - 1] != 0x16 {
        Err(MeterError::BadData)
    } else {
        Ok(frame_view_of(raw))
    }
}

/// The payload of a frame that passed its checks lies within the frame and
/// within the eleven-byte payload buffer.
pub open spec fn payload_decodable(raw: Seq<u8>) -> bool {
    let l = raw[9];
    l == 0 || (l < 255 && if is_di_reply_code(raw[8]) {
        &&& raw.len() >= 14
        &&& le_u32(raw.subrange(10, 14)) >= 0x3333_3333
        &&& 4 <= l <= 15
        &&& 10 + l <= raw.len()
    } else {
        l <= 11 && 10 + l <= raw.len()
    })
}

/// A data field that a reader takes back whole: after an identifier code it
/// is empty or an identifier (at least its 0x33 offset) and up to eleven data
/// bytes; after any other code it has up to eleven bytes.
pub open spec fn frame_field_readable(code: u8, field: Seq<u8>) -> bool {
    if is_di_reply_code(code) {
        field.len() == 0 || (4 <= field.len() <= 15 && le_u32(field) >= 0x3333_3333)
    } else {
        field.len() <= 11
    }
}

// ---------------------------------------------------------------- decoding

/// What a reply payload decodes to.
pub open spec fn payload_result(p: PayloadView) -> Result<MeterResult, MeterError> {
    match p.data_identifiers {
        Some(di) => if di == DI_IM1281X_PHASE_A_ACTIVE_ENERGY {
            Ok(MeterResult::PhaseAActiveEnergyUnit0_01KWh((le_u32(p.data) - 0x3333_3333) as u32))
        } else if di == DI_IM1281X_PHASE_B_ACTIVE_ENERGY {
            Ok(MeterResult::PhaseBActiveEnergyUnit0_01KWh((le_u32(p.data) - 0x3333_3333) as u32))
        } else if di == DI_DLT645_PHASE_A_VOLTAGE {
            Ok(MeterResult::PhaseAVoltageUnit0_1V((le_u16(p.data) - 0x3333) as u16))
        } else if di == DI_DLT645_PHASE_A_CURRENT {
            Ok(
                MeterResult::PhaseACurrentmA(
                    ((p.data[0] - 0x33) + 256 * (p.data[1] - 0x33) + 65536 * (p.data[2]
                        - 0x33)) as u32,
                ),
            )
        } else if di == DI_DLT645_TEMPERATURE {
            Ok(MeterResult::TemperatureUnit0_1C((le_u16(p.data) - 0x3333) as u16))
        } else if di == DI_IM1281X_BAUD_RATE {
            match baud_of_code(p.data[0] as int) {
                Some(b) => Ok(MeterResult::BaudRate(b)),
                None => Err(MeterError::UnknownBaudrate),
            }
        } else {
            Err(MeterError::UnsupportedYetDI(di))
        },
        None => Ok(
            MeterResult::MeterAddr(arr6(Seq::new(6, |i: int| (p.data[5 - i] - 0x33) as u8))),
        ),
    }
}

/// Decoding the payload stays within the value ranges (every encoded byte or
/// number is at least its 0x33 offset).
pub open spec fn payload_result_total(p: PayloadView) -> bool {
    match p.data_identifiers {
        Some(di) => if di == DI_IM1281X_PHASE_A_ACTIVE_ENERGY || di
            == DI_IM1281X_PHASE_B_ACTIVE_ENERGY {
            le_u32(p.data) >= 0x3333_3333
        } else if di == DI_DLT645_PHASE_A_VOLTAGE || di == DI_DLT645_TEMPERATURE {
            le_u16(p.data) >= 0x3333
        } else if di == DI_DLT645_PHASE_A_CURRENT {
            p.data[0] >= 0x33 && p.data[1] >= 0x33 && p.data[2] >= 0x33
        } else {
            true
        },
        None => forall|i: int| 0 <= i < 6 ==> p.data[i] >= 0x33,
    }
}

/// What a frame decodes to, by its control code: the slave flag (0x80) must be
/// set, the error flag (0x40) and the follow-up flag (0x20) clear, and the
/// low bits name the function.
pub open spec fn frame_result(f: FrameView) -> Result<MeterResult, MeterError> {
    let c = f.code;
    if c < 0x80 {
        Err(MeterError::NotSlaveMessage)
    } else if (c / 64) % 2 == 1 {
        Err(MeterError::SlaveAckErr)
    } else if (c / 32) % 2 == 1 {
        Err(MeterError::UnsupportedYetSubsequentDataFollowUpFlag)
    } else {
        let fun = c % 128;
        if fun == 0x08 {
            Err(MeterError::UnsupportedYetBroadcastTime)
        } else if fun == 0x11 {
            match f.payload {
                Some(p) => payload_result(p),
                None => Err(MeterError::UnExpectedNonePayload),
            }
        } else if fun == 0x12 {
            Err(MeterError::UnsupportedYetReadSubsequentData)
        } else if fun == 0x13 {
            match f.payload {
                Some(p) => payload_result(p),
                None => Err(MeterError::UnExpectedNoneAddr),
            }
        } else if fun == 0x14 {
            Err(MeterError::UnsupportedYetWriteData)
        } else if fun == 0x15 {
            match f.payload {
                Some(_) => Err(MeterError::UnExpectedPayload),
                None => Ok(MeterResult::SetMeterAddrSuccess(f.addr)),
            }
        } else if fun == 0x16 {
            Err(MeterError::UnsupportedFreezeCmd)
        } else if fun == 0x17 {
            match f.payload {
                Some(p) => match baud_of_code(p.data[0] - 0x33) {
                    Some(b) => Ok(MeterResult::BaudRate(b)),
                    None => Err(MeterError::UnknownBaudrate),
                },
                None => Err(MeterError::UnExpectedNonePayload),
            }
        } else if fun == 0x18 {
            Err(MeterError::UnsupportedYetChangePasswd)
        } else if fun == 0x19 {
            Err(MeterError::UnsupportedYetResetMaxDemand)
        } else if fun == 0x1A {
            Ok(MeterResult::ResetMeterSuccess(f.addr))
        } else if fun == 0x1B {
            Err(MeterError::UnsupportedYetResetEvent)
        } else {
            Err(MeterError::ReservedCode)
        }
    }
}

/// Decoding the frame stays within the value ranges.
pub open spec fn frame_result_total(f: FrameView) -> bool {
    let c = f.code;
    let fun = c % 128;
    (c >= 0x80 && (c / 64) % 2 == 0 && (c / 32) % 2 == 0) ==> match f.payload {
        Some(p) => (fun == 0x11 || fun == 0x13 ==> payload_result_total(p)) && (fun == 0x17
            ==> p.data[0] >= 0x33),
        None => true,
    }
}

/// A received frame can be decoded without leaving the frame, the payload
/// buffer or the value ranges: the frame is refused by its checks, or its
/// payload and values lie within them.
pub open spec fn frame_decodable(raw: Seq<u8>) -> bool {
    frame_checks_pass(raw) ==> payload_decodable(raw) && frame_result_total(frame_view_of(raw))
}

/// What a received frame decodes to.
pub open spec fn parse_result(raw: Seq<u8>) -> Result<MeterResult, MeterError> {
    match parse_frame(raw) {
        Ok(f) => frame_result(f),
        Err(e) => Err(e),
    }
}

// ---------------------------------------------------------------- replies

/// The control code of the meter's reply that carries `r`.
pub open spec fn reply_code(r: MeterResult) -> u8 {
    match r {
        MeterResult::MeterAddr(_) => 0x93,
        MeterResult::BaudRate(_) => 0x97,
        MeterResult::SetMeterAddrSuccess(_) => 0x95,
        MeterResult::ResetMeterSuccess(_) => 0x9A,
        _ => 0x91,
    }
}

/// The identifier bytes of a reply to a read of `di`.
pub open spec fn di_field(di: u32) -> Seq<u8> {
    le_bytes_u32((di + 0x3333_3333) as u32)
}

/// A two-byte value sent with 0x33 added to each byte, lowest first.
pub open spec fn offset_u16_field(v: u16) -> Seq<u8> {
    seq![((v + 0x3333) % 256) as u8, ((v + 0x3333) / 256) as u8]
}

/// The data field of the meter's reply that carries `r`.
pub open spec fn reply_field(r: MeterResult) -> Seq<u8> {
    match r {
        MeterResult::MeterAddr(a) => Seq::new(6, |i: int| (a[5 - i] + 0x33) as u8),
        MeterResult::PhaseAVoltageUnit0_1V(v) => di_field(DI_DLT645_PHASE_A_VOLTAGE)
            + offset_u16_field(v),
        MeterResult::PhaseACurrentmA(c) => di_field(DI_DLT645_PHASE_A_CURRENT) + seq![
            (c % 256 + 0x33) as u8,
            (c / 256 % 256 + 0x33) as u8,
            (c / 65536 + 0x33) as u8,
        ],
        MeterResult::PhaseAActiveEnergyUnit0_01KWh(e) => di_field(DI_IM1281X_PHASE_A_ACTIVE_ENERGY)
            + le_bytes_u32((e + 0x3333_3333) as u32),
        MeterResult::PhaseBActiveEnergyUnit0_01KWh(e) => di_field(DI_IM1281X_PHASE_B_ACTIVE_ENERGY)
            + le_bytes_u32((e + 0x3333_3333) as u32),
        MeterResult::TemperatureUnit0_1C(t) => di_field(DI_DLT645_TEMPERATURE) + offset_u16_field(
            t,
        ),
        MeterResult::BaudRate(b) => seq![(baud_code(b) + 0x33) as u8],
        MeterResult::SetMeterAddrSuccess(_) => Seq::empty(),
        MeterResult::ResetMeterSuccess(_) => Seq::empty(),
    }
}

/// `r` can be carried by a reply: each byte or number fits its 0x33 offset.
pub open spec fn reply_representable(r: MeterResult) -> bool {
    match r {
        MeterResult::MeterAddr(a) => forall|i: int| 0 <= i < 6 ==> a[i] <= 0xCC,
        MeterResult::PhaseAVoltageUnit0_1V(v) => v <= 0xCCCC,
        MeterResult::PhaseACurrentmA(c) => c < 0x100_0000 && c % 256 <= 0xCC && c / 256 % 256
            <= 0xCC && c / 65536 <= 0xCC,
        MeterResult::PhaseAActiveEnergyUnit0_01KWh(e) => e <= 0xCCCC_CCCC,
        MeterResult::PhaseBActiveEnergyUnit0_01KWh(e) => e <= 0xCCCC_CCCC,
        MeterResult::TemperatureUnit0_1C(t) => t <= 0xCCCC,
        _ => true,
    }
}

/// The reply frame, sent from `addr`, that carries `r`.
pub open spec fn reply_frame(addr: [u8; 6], r: MeterResult) -> Seq<u8> {
    frame_bytes(addr, reply_code(r), reply_field(r))
}

/// `r` is the kind of result that answers the request `fc`.
pub open spec fn answers(fc: FunctionCode, r: MeterResult) -> bool {
    match (fc, r) {
        (FunctionCode::MasterQuerySlaveAddr, MeterResult::MeterAddr(_)) => true,
        (FunctionCode::MasterSetSlaveAddr(_), MeterResult::SetMeterAddrSuccess(_)) => true,
        (FunctionCode::MasterChangeSlaveBaudRate(b), MeterResult::BaudRate(c)) => b == c,
        (FunctionCode::MResetMeter, MeterResult::ResetMeterSuccess(_)) => true,
        (FunctionCode::MQueryPhaseACurrent, MeterResult::PhaseACurrentmA(_)) => true,
        (
            FunctionCode::MQueryPhaseAActiveEnergyIM1281X,
            MeterResult::PhaseAActiveEnergyUnit0_01KWh(_),
        ) => true,
        (
            FunctionCode::MQueryPhaseBActiveEnergyIM1281X,
            MeterResult::PhaseBActiveEnergyUnit0_01KWh(_),
        ) => true,
        (FunctionCode::MQueryTemperature, MeterResult::TemperatureUnit0_1C(_)) => true,
        _ => false,
    }
}

} // verus!
