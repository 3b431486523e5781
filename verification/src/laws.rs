//! Properties of the library as a whole, proved over the model in `spec`.
use vstd::prelude::*;
use crate::spec::{
    arr6, byte_sum, checksum_of, frame_bytes, frame_checks_pass, frame_field_readable,
    frame_view_of, le_bytes_u32, le_u32, parse_frame, payload_decodable, payload_field, zero_pad,
    is_di_reply_code, FrameView, request_frame, request_address, request_code, request_payload,
    frame_decodable, parse_result, reply_code, reply_field, reply_representable,
    DI_DLT645_PHASE_A_CURRENT, DI_DLT645_PHASE_A_VOLTAGE, DI_DLT645_TEMPERATURE,
    DI_IM1281X_PHASE_A_ACTIVE_ENERGY, DI_IM1281X_PHASE_B_ACTIVE_ENERGY, reply_frame,
    offset_u16_field, answers, reply_len, request_encodable, payload_result,
    payload_result_total,
};
use crate::types::{BaudRate, FunctionCode, MeterError, MeterResult};

verus! {

/// The four bytes of a little-endian number read back give the number.
pub proof fn lemma_le_u32_of_bytes(v: u32)
    ensures
        le_u32(le_bytes_u32(v)) == v,
{
    let b0 = v % 256;
    let b1 = v / 256 % 256;
    let b2 = v / 65536 % 256;
    let b3 = v / 16777216;
    assert(b0 + 256 * b1 + 65536 * b2 + 16777216 * b3 == v) by (bit_vector)
        requires
            b0 == v % 256,
            b1 == v / 256 % 256,
            b2 == v / 65536 % 256,
            b3 == v / 16777216,
    ;
}

/// Four bytes read as a little-endian number and written back give the bytes.
pub proof fn lemma_bytes_of_le_u32(b: Seq<u8>)
    requires
        b.len() >= 4,
    ensures
        0 <= le_u32(b) <= u32::MAX,
        le_bytes_u32(le_u32(b) as u32) == b.subrange(0, 4),
{
    let b0 = b[0];
    let b1 = b[1];
    let b2 = b[2];
    let b3 = b[3];
    let v: u32 = (b0 + 256 * b1 + 65536 * b2 + 16777216 * b3) as u32;
    assert(v % 256 == b0 && v / 256 % 256 == b1 && v / 65536 % 256 == b2 && v / 16777216 == b3)
        by (bit_vector)
        requires
            v == b0 + 256 * b1 + 65536 * b2 + 16777216 * b3,
    ;
    assert(le_bytes_u32(le_u32(b) as u32) =~= b.subrange(0, 4));
}

/// Where each part of a frame lies in its bytes: `68`, the address lowest
/// byte first, `68`, the code, the length, the data field, the check byte of
/// all that, and `16`.
pub proof fn lemma_frame_bytes_layout(addr: [u8; 6], code: u8, field: Seq<u8>)
    requires
        field.len() <= 255,
    ensures
        ({
            let fb = frame_bytes(addr, code, field);
            &&& fb.len() == 12 + field.len()
            &&& fb[0] == 0x68
            &&& fb[7] == 0x68
            &&& fb[8] == code
            &&& fb[9] == field.len()
            &&& fb.subrange(1, 7) == addr@.reverse()
            &&& forall|k: int| 0 <= k < field.len() ==> fb[10 + k] == field[k]
            &&& fb.subrange(10, 10 + field.len() as int) == field
            &&& fb[fb.len() - 2] == checksum_of(fb.subrange(0, fb.len() - 2))
            &&& fb[fb.len() - 1] == 0x16
        }),
{
    let body = seq![0x68u8] + addr@.reverse() + seq![0x68u8, code, field.len() as u8] + field;
    let fb = frame_bytes(addr, code, field);
    assert(body.len() == 10 + field.len());
    assert(fb.subrange(0, fb.len() - 2) =~= body);
    assert(fb.subrange(1, 7) =~= addr@.reverse());
    assert forall|k: int| 0 <= k < field.len() implies fb[10 + k] == field[k] by {
        assert(body[10 + k] == field[k]);
    }
    assert(fb.subrange(10, 10 + field.len() as int) =~= field);
}

/// Every frame the library writes passes the framing checks of a reader.
pub proof fn lemma_frame_bytes_pass_checks(addr: [u8; 6], code: u8, field: Seq<u8>)
    requires
        field.len() <= 255,
    ensures
        frame_checks_pass(frame_bytes(addr, code, field)),
        frame_bytes(addr, code, field).len() == 12 + field.len(),
{
    lemma_frame_bytes_layout(addr, code, field);
}

/// Reading a frame gives back the address, the control code and the data
/// field that it was written with.
pub proof fn lemma_parse_frame_bytes(addr: [u8; 6], code: u8, field: Seq<u8>)
    requires
        frame_field_readable(code, field),
    ensures
        payload_decodable(frame_bytes(addr, code, field)),
        parse_frame(frame_bytes(addr, code, field)) matches Ok(f) && f.addr == addr && f.code
            == code && payload_field(f.payload) == field && f.payload_len == (if field.len() == 0 {
            0
        } else {
            field.len() + 1
        }),
{
    let fb = frame_bytes(addr, code, field);
    lemma_frame_bytes_layout(addr, code, field);
    assert(frame_checks_pass(fb));
    assert(parse_frame(fb) == Ok::<FrameView, MeterError>(frame_view_of(fb)));
    lemma_read_address(fb, addr);
    lemma_read_payload(fb, code, field);
}

proof fn lemma_read_address(fb: Seq<u8>, addr: [u8; 6])
    requires
        fb.len() >= 12,
        fb.subrange(1, 7) == addr@.reverse(),
    ensures
        frame_view_of(fb).addr == addr,
{
    assert(fb.subrange(1, 7).reverse() =~= addr@);
    assert(arr6(addr@) =~= addr);
}

proof fn lemma_read_payload(fb: Seq<u8>, code: u8, field: Seq<u8>)
    requires
        frame_field_readable(code, field),
        fb.len() == 12 + field.len(),
        fb[8] == code,
        fb[9] == field.len(),
        fb.subrange(10, 10 + field.len() as int) == field,
    ensures
        payload_decodable(fb),
        payload_field(frame_view_of(fb).payload) == field,
        field.len() == 0 ==> frame_view_of(fb).payload is None,
        field.len() > 0 && is_di_reply_code(code) ==> (frame_view_of(fb).payload matches Some(p)
            && p.data_identifiers == Some((le_u32(field) - 0x3333_3333) as u32) && forall|k: int|
            0 <= k < field.len() - 4 ==> p.data[k] == field[4 + k]),
        field.len() > 0 && !is_di_reply_code(code) ==> (frame_view_of(fb).payload matches Some(p)
            && p.data_identifiers is None && forall|k: int| 0 <= k < field.len() ==> p.data[k]
            == field[k]),
        frame_view_of(fb).payload_len == (if field.len() == 0 { 0 } else { field.len() + 1 }),
{
    let l = field.len();
    let f = frame_view_of(fb);
    if l > 0 {
        if is_di_reply_code(code) {
            assert(fb.subrange(10, 14) =~= field.subrange(0, 4));
            lemma_bytes_of_le_u32(field);
            let dl = (l - 4) as u8;
            let p = f.payload->0;
            assert(fb.subrange(14, 14 + dl) =~= field.subrange(4, l as int));
            assert(p.data.take(dl as int) =~= field.subrange(4, l as int));
            assert(field =~= field.subrange(0, 4) + field.subrange(4, l as int));
            assert forall|k: int| 0 <= k < field.len() - 4 implies p.data[k] == field[4 + k] by {
                assert(p.data.take(dl as int)[k] == p.data[k]);
            }
        } else {
            let p = f.payload->0;
            assert(p.data.take(l as int) =~= field);
            assert forall|k: int| 0 <= k < field.len() implies p.data[k] == field[k] by {
                assert(p.data.take(l as int)[k] == p.data[k]);
            }
        }
    }
}

/// The fields of the requests stay within what a reader takes back whole.
proof fn lemma_request_field(fc: FunctionCode)
    ensures
        payload_field(request_payload(fc)).len() <= 8,
        frame_field_readable(request_code(fc), payload_field(request_payload(fc))),
{
    match request_payload(fc) {
        Some(p) => {
            assert(p.data.take(p.data_len as int).len() == p.data_len);
        },
        None => {},
    }
}

/// A request frame is read back with the address, code and data field it was
/// built with, and is never taken for a meter's reply.
pub proof fn lemma_request_is_not_reply(addr: Option<[u8; 6]>, fc: FunctionCode)
    ensures
        frame_checks_pass(request_frame(addr, fc)),
        request_frame(addr, fc).len() == 12 + payload_field(request_payload(fc)).len(),
        parse_frame(request_frame(addr, fc)) matches Ok(f) && f.addr == request_address(addr, fc)
            && f.code == request_code(fc) && payload_field(f.payload) == payload_field(
            request_payload(fc),
        ),
        frame_decodable(request_frame(addr, fc)),
        parse_result(request_frame(addr, fc)) == Err::<MeterResult, MeterError>(
            MeterError::NotSlaveMessage,
        ),
{
    let field = payload_field(request_payload(fc));
    lemma_request_field(fc);
    lemma_frame_bytes_pass_checks(request_address(addr, fc), request_code(fc), field);
    lemma_parse_frame_bytes(request_address(addr, fc), request_code(fc), field);
}

/// The data field of a reply stays within what a reader takes back whole.
proof fn lemma_reply_field(r: MeterResult)
    requires
        reply_representable(r),
    ensures
        frame_field_readable(reply_code(r), reply_field(r)),
        reply_field(r).len() == match r {
            MeterResult::MeterAddr(_) => 6nat,
            MeterResult::PhaseAVoltageUnit0_1V(_) => 6,
            MeterResult::PhaseACurrentmA(_) => 7,
            MeterResult::PhaseAActiveEnergyUnit0_01KWh(_) => 8,
            MeterResult::PhaseBActiveEnergyUnit0_01KWh(_) => 8,
            MeterResult::TemperatureUnit0_1C(_) => 6,
            MeterResult::BaudRate(_) => 1,
            MeterResult::SetMeterAddrSuccess(_) => 0,
            MeterResult::ResetMeterSuccess(_) => 0,
        },
{
    match r {
        MeterResult::PhaseAVoltageUnit0_1V(_) => {
            lemma_le_u32_of_bytes((DI_DLT645_PHASE_A_VOLTAGE + 0x3333_3333) as u32);
        },
        MeterResult::PhaseACurrentmA(_) => {
            lemma_le_u32_of_bytes((DI_DLT645_PHASE_A_CURRENT + 0x3333_3333) as u32);
        },
        MeterResult::PhaseAActiveEnergyUnit0_01KWh(_) => {
            lemma_le_u32_of_bytes((DI_IM1281X_PHASE_A_ACTIVE_ENERGY + 0x3333_3333) as u32);
        },
        MeterResult::PhaseBActiveEnergyUnit0_01KWh(_) => {
            lemma_le_u32_of_bytes((DI_IM1281X_PHASE_B_ACTIVE_ENERGY + 0x3333_3333) as u32);
        },
        MeterResult::TemperatureUnit0_1C(_) => {
            lemma_le_u32_of_bytes((DI_DLT645_TEMPERATURE + 0x3333_3333) as u32);
        },
        _ => {},
    }
}

/// A meter's reply that carries `r`, read and decoded, gives `r` back; the
/// two acknowledgements name the address they come from.
pub proof fn lemma_reply_decodes(addr: [u8; 6], r: MeterResult)
    requires
        reply_representable(r),
        r matches MeterResult::SetMeterAddrSuccess(a) ==> a == addr,
        r matches MeterResult::ResetMeterSuccess(a) ==> a == addr,
    ensures
        frame_decodable(reply_frame(addr, r)),
        parse_result(reply_frame(addr, r)) == Ok::<MeterResult, MeterError>(r),
{
    let code = reply_code(r);
    let field = reply_field(r);
    let fb = reply_frame(addr, r);
    lemma_reply_field(r);
    lemma_frame_bytes_layout(addr, code, field);
    lemma_read_address(fb, addr);
    lemma_read_payload(fb, code, field);
    let f = frame_view_of(fb);
    assert(parse_frame(fb) == Ok::<FrameView, MeterError>(f));
    match r {
        MeterResult::MeterAddr(a) => {
            let p = f.payload->0;
            let decoded = Seq::new(6, |i: int| (p.data[5 - i] - 0x33) as u8);
            assert(decoded =~= a@);
            assert(arr6(a@) =~= a);
        },
        MeterResult::PhaseAVoltageUnit0_1V(v) => {
            lemma_le_u32_of_bytes((DI_DLT645_PHASE_A_VOLTAGE + 0x3333_3333) as u32);
            lemma_offset_u16(v);
        },
        MeterResult::PhaseACurrentmA(c) => {
            lemma_le_u32_of_bytes((DI_DLT645_PHASE_A_CURRENT + 0x3333_3333) as u32);
            lemma_offset_u24(c);
        },
        MeterResult::PhaseAActiveEnergyUnit0_01KWh(e) => {
            lemma_le_u32_of_bytes((DI_IM1281X_PHASE_A_ACTIVE_ENERGY + 0x3333_3333) as u32);
            lemma_le_u32_of_bytes((e + 0x3333_3333) as u32);
            let p = f.payload->0;
            assert(p.data.subrange(0, 4) =~= le_bytes_u32((e + 0x3333_3333) as u32));
        },
        MeterResult::PhaseBActiveEnergyUnit0_01KWh(e) => {
            lemma_le_u32_of_bytes((DI_IM1281X_PHASE_B_ACTIVE_ENERGY + 0x3333_3333) as u32);
            lemma_le_u32_of_bytes((e + 0x3333_3333) as u32);
            let p = f.payload->0;
            assert(p.data.subrange(0, 4) =~= le_bytes_u32((e + 0x3333_3333) as u32));
        },
        MeterResult::TemperatureUnit0_1C(t) => {
            lemma_le_u32_of_bytes((DI_DLT645_TEMPERATURE + 0x3333_3333) as u32);
            lemma_offset_u16(t);
        },
        _ => {},
    }
}

/// A two-byte value sent with its 0x33 offsets reads back as the value plus
/// 0x3333.
proof fn lemma_offset_u16(v: u16)
    requires
        v <= 0xCCCC,
    ensures
        offset_u16_field(v)[0] + 256 * offset_u16_field(v)[1] == v + 0x3333,
{
    let w = v + 0x3333;
    assert((w % 256) + 256 * (w / 256) == w) by (nonlinear_arith)
        requires
            w >= 0,
    ;
}

/// A three-byte value sent with 0x33 added to each byte reads back whole.
proof fn lemma_offset_u24(c: u32)
    requires
        c < 0x100_0000,
    ensures
        c % 256 + 256 * (c / 256 % 256) + 65536 * (c / 65536) == c,
{
    assert(c % 256 + 256 * (c / 256 % 256) + 65536 * (c / 65536) == c) by (bit_vector)
        requires
            c < 0x100_0000u32,
    ;
}

/// The number of bytes the master waits for after a request is the length
/// of the meter's reply to it.
pub proof fn lemma_reply_len_matches(fc: FunctionCode, addr: [u8; 6], r: MeterResult)
    requires
        answers(fc, r),
    ensures
        reply_frame(addr, r).len() == reply_len(fc),
{
    assert(reply_field(r).len() <= 8) by {
        match r {
            MeterResult::PhaseAVoltageUnit0_1V(_) => {},
            _ => {},
        }
    }
    lemma_frame_bytes_layout(addr, reply_code(r), reply_field(r));
}

/// The data field of a set-address request is the reply to an address query
/// for that address, and that of a baud-rate request is the reply naming that
/// rate: a meter that keeps what it was sent reads back as what was set.
pub proof fn lemma_set_then_read_back(from: [u8; 6], a: [u8; 6], b: BaudRate)
    requires
        request_encodable(FunctionCode::MasterSetSlaveAddr(a)),
    ensures
        payload_field(request_payload(FunctionCode::MasterSetSlaveAddr(a))) == reply_field(
            MeterResult::MeterAddr(a),
        ),
        payload_field(request_payload(FunctionCode::MasterChangeSlaveBaudRate(b))) == reply_field(
            MeterResult::BaudRate(b),
        ),
        parse_result(
            frame_bytes(
                from,
                reply_code(MeterResult::MeterAddr(a)),
                payload_field(request_payload(FunctionCode::MasterSetSlaveAddr(a))),
            ),
        ) == Ok::<MeterResult, MeterError>(MeterResult::MeterAddr(a)),
        parse_result(
            frame_bytes(
                from,
                reply_code(MeterResult::BaudRate(b)),
                payload_field(request_payload(FunctionCode::MasterChangeSlaveBaudRate(b))),
            ),
        ) == Ok::<MeterResult, MeterError>(MeterResult::BaudRate(b)),
{
    let set_p = request_payload(FunctionCode::MasterSetSlaveAddr(a))->0;
    assert(set_p.data.take(6) =~= reply_field(MeterResult::MeterAddr(a)));
    let baud_p = request_payload(FunctionCode::MasterChangeSlaveBaudRate(b))->0;
    assert(baud_p.data.take(1) =~= reply_field(MeterResult::BaudRate(b)));
    lemma_reply_decodes(from, MeterResult::MeterAddr(a));
    lemma_reply_decodes(from, MeterResult::BaudRate(b));
}

/// Changing the byte at `i` changes the byte sum by the difference.
proof fn lemma_byte_sum_update(s: Seq<u8>, i: int, v: u8)
    requires
        0 <= i < s.len(),
    ensures
        byte_sum(s.update(i, v)) == byte_sum(s) - s[i] + v,
    decreases s.len(),
{
    let t = s.update(i, v);
    if i == s.len() - 1 {
        assert(t.drop_last() =~= s.drop_last());
    } else {
        lemma_byte_sum_update(s.drop_last(), i, v);
        assert(t.drop_last() =~= s.drop_last().update(i, v));
    }
}

/// A frame with any one byte altered is refused by a reader: the check byte
/// catches every single-byte change.
pub proof fn lemma_altered_frame_refused(raw: Seq<u8>, i: int, v: u8)
    requires
        frame_checks_pass(raw),
        0 <= i < raw.len(),
        v != raw[i],
    ensures
        parse_frame(raw.update(i, v)) is Err,
        parse_result(raw.update(i, v)) is Err,
{
    let t = raw.update(i, v);
    let n = raw.len();
    if i == 0 || i == 7 || i == n - 1 {
    } else if i == n - 2 {
        assert(t.subrange(0, n - 2) =~= raw.subrange(0, n - 2));
    } else {
        let body = raw.subrange(0, n - 2);
        assert(t.subrange(0, n - 2) =~= body.update(i, v));
        lemma_byte_sum_update(body, i, v);
        let x = byte_sum(body) as int;
        let d = v - body[i];
        assert((x + d) % 256 != x % 256) by (nonlinear_arith)
            requires
                x >= 0,
                x + d >= 0,
                -256 < d < 256,
                d != 0,
        ;
    }
}

/// A received frame whose length agrees with its length byte, read and
/// written again, gives the same bytes.
pub proof fn lemma_parsed_frame_rewrites_to_itself(raw: Seq<u8>)
    requires
        frame_checks_pass(raw),
        payload_decodable(raw),
        raw.len() == 12 + raw[9],
    ensures
        parse_frame(raw) matches Ok(f) && frame_bytes(f.addr, f.code, payload_field(f.payload))
            == raw,
{
    let f = frame_view_of(raw);
    let l = raw[9] as int;
    let field = raw.subrange(10, 10 + l);
    assert(payload_field(f.payload) =~= field) by {
        if l > 0 {
            let p = f.payload->0;
            if is_di_reply_code(raw[8]) {
                lemma_bytes_of_le_u32(raw.subrange(10, 14));
                assert(p.data.take(l - 4) =~= raw.subrange(14, 10 + l));
                assert(field =~= raw.subrange(10, 14) + raw.subrange(14, 10 + l));
            } else {
                assert(p.data.take(l) =~= field);
            }
        }
    }
    let a = f.addr;
    assert(a@ =~= raw.subrange(1, 7).reverse());
    assert(a@.reverse() =~= raw.subrange(1, 7));
    let body = seq![0x68u8] + a@.reverse() + seq![0x68u8, f.code, field.len() as u8] + field;
    assert(body =~= raw.subrange(0, raw.len() - 2));
    assert(body.push(checksum_of(body)).push(0x16u8) =~= raw);
}

/// The payload of a set-address request, decoded as a reply payload, gives
/// back the address that was encoded in it.
pub proof fn lemma_set_address_payload_decodes(a: [u8; 6])
    requires
        request_encodable(FunctionCode::MasterSetSlaveAddr(a)),
    ensures
        request_payload(FunctionCode::MasterSetSlaveAddr(a)) matches Some(p) && payload_result_total(p)
            && payload_result(p) == Ok::<MeterResult, MeterError>(MeterResult::MeterAddr(a)),
{
    let p = request_payload(FunctionCode::MasterSetSlaveAddr(a))->0;
    let decoded = Seq::new(6, |i: int| (p.data[5 - i] - 0x33) as u8);
    assert(decoded =~= a@);
    assert(arr6(a@) =~= a);
}

} // verus!
