//! Frames: control codes, payloads, encoding to bytes and reading from bytes.
use vstd::prelude::*;
use crate::spec::{
    arr6, byte_sum, checksum_of, frame_bytes, frame_checks_pass, frame_result, frame_result_total,
    le_bytes_u32, le_u16, le_u32, parse_frame, payload_decodable, payload_field, payload_result,
    payload_result_total, request_code, request_encodable, request_payload, zero_pad, FrameView,
    PayloadView, DI_DLT645_PHASE_A_CURRENT, DI_DLT645_PHASE_A_VOLTAGE, DI_DLT645_TEMPERATURE,
    DI_IM1281X_BAUD_RATE, DI_IM1281X_PHASE_A_ACTIVE_ENERGY, DI_IM1281X_PHASE_B_ACTIVE_ENERGY,
};
use crate::types::{BaudRate, FunctionCode, MeterError, MeterResult};

verus! {

broadcast use vstd::array::group_array_axioms;

/// Control codes (the function bits and the three flag bits).
#[derive(Debug, PartialEq, Eq)]
pub(crate) enum Code {
    Reserved,
    BroadcastTime,
    ReadData,
    ReadSubsequentData,
    ReadAddr,
    WriteData,
    WriteAddr,
    FreezeCmd,
    ChangeBaudrate,
    ChangPasswd,
    /// Clear the maximum demand.
    ResetMaxDemand,
    ResetMeter,
    ResetEvent,
    /// The slave has further frames; continue with ReadSubsequentData.
    SubsequentDataFollowUp,
    /// The slave refused the request; a one-byte error code is in the payload.
    SlaveACKErr,
    /// The frame was sent by a slave.
    SlaveFlag,
}

impl Code {
    pub(crate) open spec fn value(self) -> u8 {
        match self {
            Code::Reserved => 0x00,
            Code::BroadcastTime => 0x08,
            Code::ReadData => 0x11,
            Code::ReadSubsequentData => 0x12,
            Code::ReadAddr => 0x13,
            Code::WriteData => 0x14,
            Code::WriteAddr => 0x15,
            Code::FreezeCmd => 0x16,
            Code::ChangeBaudrate => 0x17,
            Code::ChangPasswd => 0x18,
            Code::ResetMaxDemand => 0x19,
            Code::ResetMeter => 0x1A,
            Code::ResetEvent => 0x1B,
            Code::SubsequentDataFollowUp => 0x20,
            Code::SlaveACKErr => 0x40,
            Code::SlaveFlag => 0x80,
        }
    }

    /// The byte of this code.
    pub(crate) fn val(self) -> (v: u8)
        ensures
            v == self.value(),
    {
        match self {
            Code::Reserved => 0x00,
            Code::BroadcastTime => 0x08,
            Code::ReadData => 0x11,
            Code::ReadSubsequentData => 0x12,
            Code::ReadAddr => 0x13,
            Code::WriteData => 0x14,
            Code::WriteAddr => 0x15,
            Code::FreezeCmd => 0x16,
            Code::ChangeBaudrate => 0x17,
            Code::ChangPasswd => 0x18,
            Code::ResetMaxDemand => 0x19,
            Code::ResetMeter => 0x1A,
            Code::ResetEvent => 0x1B,
            Code::SubsequentDataFollowUp => 0x20,
            Code::SlaveACKErr => 0x40,
            Code::SlaveFlag => 0x80,
        }
    }

    /// The function code a byte names; every other byte is `Reserved`.
    pub(crate) open spec fn code_of_byte(value: u8) -> Code {
        if value == 0x08 {
            Code::BroadcastTime
        } else if value == 0x11 {
            Code::ReadData
        } else if value == 0x12 {
            Code::ReadSubsequentData
        } else if value == 0x13 {
            Code::ReadAddr
        } else if value == 0x14 {
            Code::WriteData
        } else if value == 0x15 {
            Code::WriteAddr
        } else if value == 0x16 {
            Code::FreezeCmd
        } else if value == 0x17 {
            Code::ChangeBaudrate
        } else if value == 0x18 {
            Code::ChangPasswd
        } else if value == 0x19 {
            Code::ResetMaxDemand
        } else if value == 0x1A {
            Code::ResetMeter
        } else if value == 0x1B {
            Code::ResetEvent
        } else {
            Code::Reserved
        }
    }

    /// The function code a byte names; every other byte is `Reserved`.
    pub(crate) fn from_byte(value: u8) -> (c: Code)
        ensures
            c == Code::code_of_byte(value),
            (0x11 <= value <= 0x1B || value == 0x08) ==> c.value() == value,
            !(0x11 <= value <= 0x1B || value == 0x08) ==> c == Code::Reserved,
    {
        match value {
            0x08 => Code::BroadcastTime,
            0x11 => Code::ReadData,
            0x12 => Code::ReadSubsequentData,
            0x13 => Code::ReadAddr,
            0x14 => Code::WriteData,
            0x15 => Code::WriteAddr,
            0x16 => Code::FreezeCmd,
            0x17 => Code::ChangeBaudrate,
            0x18 => Code::ChangPasswd,
            0x19 => Code::ResetMaxDemand,
            0x1A => Code::ResetMeter,
            0x1B => Code::ResetEvent,
            _ => Code::Reserved,
        }
    }

    /// The control code of the request for `fc`.
    pub(crate) fn for_function(fc: &FunctionCode) -> (c: Code)
        ensures
            c.value() == request_code(*fc),
    {
        match fc {
            FunctionCode::MasterQuerySlaveAddr => Code::ReadAddr,
            FunctionCode::MasterSetSlaveAddr(_) => Code::WriteAddr,
            FunctionCode::MasterChangeSlaveBaudRate(_) => Code::ChangeBaudrate,
            FunctionCode::MQueryPhaseAActiveEnergyIM1281X => Code::ReadData,
            FunctionCode::MQueryPhaseBActiveEnergyIM1281X => Code::ReadData,
            FunctionCode::MQueryTemperature => Code::ReadData,
            FunctionCode::MQueryPhaseACurrent => Code::ReadData,
            FunctionCode::MResetMeter => Code::ResetMeter,
        }
    }
}

/// A function code's byte reads back as that code (the three flag codes name
/// no function), and every byte that names no function reads as `Reserved`.
pub(crate) proof fn lemma_code_byte_round_trip(c: Code, x: u8)
    ensures
        !(c is SubsequentDataFollowUp || c is SlaveACKErr || c is SlaveFlag) ==> Code::code_of_byte(
            c.value(),
        ) == c,
        !(0x11 <= x <= 0x1B || x == 0x08) ==> Code::code_of_byte(x) == Code::Reserved,
{
}

/// Adding a byte to a sequence adds it to the check byte, modulo 256.
pub proof fn lemma_checksum_push(s: Seq<u8>, b: u8)
    ensures
        checksum_of(s.push(b)) as int == (checksum_of(s) as int + b as int) % 256,
{
    assert(s.push(b).drop_last() =~= s);
    assert(byte_sum(s.push(b)) == byte_sum(s) + b);
    vstd::arithmetic::div_mod::lemma_add_mod_noop(byte_sum(s) as int, b as int, 256);
    vstd::arithmetic::div_mod::lemma_small_mod(b as nat, 256);
    vstd::arithmetic::div_mod::lemma_mod_twice(byte_sum(s) as int, 256);
}

/// The check byte of `raw`: the sum of its bytes modulo 256.
pub(crate) fn checksum(raw: &[u8]) -> (cs: u8)
    ensures
        cs == checksum_of(raw@),
{
    let mut cs: u8 = 0;
    let mut k: usize = 0;
    while k < raw.len()
        invariant
            k <= raw.len(),
            cs == checksum_of(raw@.subrange(0, k as int)),
        decreases raw.len() - k,
    {
        proof {
            lemma_checksum_push(raw@.subrange(0, k as int), raw@[k as int]);
            assert(raw@.subrange(0, k as int).push(raw@[k as int]) =~= raw@.subrange(
                0,
                k + 1 as int,
            ));
        }
        cs = ((cs as u16 + raw[k] as u16) % 256) as u8;
        k = k + 1;
    }
    assert(raw@.subrange(0, k as int) =~= raw@);
    cs
}

/// A payload: an optional data identifier and up to eleven data bytes, of
/// which the first `data_len` are meaningful.
#[derive(Debug)]
pub struct Payload {
    pub data_identifiers: Option<u32>,
    pub data_len: u8,
    pub data: [u8; 11],
}

impl View for Payload {
    type V = PayloadView;

    open spec fn view(&self) -> PayloadView {
        PayloadView {
            data_identifiers: self.data_identifiers,
            data_len: self.data_len,
            data: self.data@,
        }
    }
}

/// The view of an optional payload.
pub open spec fn opt_view(p: Option<Payload>) -> Option<PayloadView> {
    match p {
        Some(p) => Some(p@),
        None => None,
    }
}

impl Payload {
    /// The meaningful bytes lie within the buffer.
    pub(crate) open spec fn wf(&self) -> bool {
        self.data_len <= 11
    }

    /// One more than the length of the data field this payload is sent as.
    pub(crate) open spec fn len_spec(&self) -> int {
        if self.data_identifiers.is_some() {
            4 + self.data_len + 1
        } else {
            self.data_len + 1
        }
    }

    /// The length byte of this payload's frame, plus one.
    pub(crate) fn len(&self) -> (n: u8)
        requires
            self.wf(),
        ensures
            n == self.len_spec(),
            n == payload_field(Some(self@)).len() + 1,
    {
        if self.data_identifiers.is_some() {
            4 + self.data_len + 1
        } else {
            self.data_len + 1
        }
    }
}

/// A frame as the library holds it.
#[derive(Debug)]
pub struct DLT645_2007 {
    pub addr: [u8; 6],
    pub code: u8,
    pub payload_len: u8,
    pub payload: Option<Payload>,
}

impl View for DLT645_2007 {
    type V = FrameView;

    open spec fn view(&self) -> FrameView {
        FrameView {
            addr: self.addr,
            code: self.code,
            payload_len: self.payload_len,
            payload: opt_view(self.payload),
        }
    }
}

/// The raw bytes of a frame, ready to be sent.
pub struct DLT645_2007Raw {
    len: u8,
    container: [u8; 31],
}

impl DLT645_2007Raw {
    #[verifier::type_invariant]
    spec fn fits(&self) -> bool {
        self.len <= 31
    }
}

impl View for DLT645_2007Raw {
    type V = Seq<u8>;

    closed spec fn view(&self) -> Seq<u8> {
        self.container@.subrange(0, self.len as int)
    }
}

impl DLT645_2007Raw {
    /// The frame's bytes.
    pub fn as_ref(&self) -> (bytes: &[u8])
        ensures
            bytes@ == self@,
    {
        proof {
            use_type_invariant(self);
        }
        &self.container[0..self.len as usize]
    }
}

/// The four little-endian bytes of `v`.
fn le_bytes_of(v: u32) -> (b: [u8; 4])
    ensures
        b@ == le_bytes_u32(v),
{
    let b = [(v % 256) as u8, (v / 256 % 256) as u8, (v / 65536 % 256) as u8, (v / 16777216) as u8];
    assert(b@ =~= le_bytes_u32(v));
    b
}

impl DLT645_2007 {
    /// A frame to `addr` with control code `code`.
    pub(crate) fn new(addr: [u8; 6], code: Code, payload: Option<Payload>) -> (f: DLT645_2007)
        requires
            payload matches Some(p) ==> p.wf(),
        ensures
            f.addr == addr,
            f.code == code.value(),
            f.payload == payload,
            f@ == (FrameView {
                addr,
                code: code.value(),
                payload_len: match payload {
                    Some(p) => p.len_spec() as u8,
                    None => 0u8,
                },
                payload: opt_view(payload),
            }),
    {
        let (payload_len, payload) = if let Some(p) = payload {
            (p.len(), Some(p))
        } else {
            (0, None)
        };
        DLT645_2007 { addr, code: code.val(), payload_len, payload }
    }

    /// The bytes this frame is sent as.
    pub(crate) fn to_dlt645_2007raw(self) -> (raw: DLT645_2007Raw)
        requires
            self.payload matches Some(p) ==> p.wf() && (p.data_identifiers matches Some(di)
                ==> di <= 0xCCCC_CCCC),
        ensures
            raw@ == frame_bytes(self.addr, self.code, payload_field(self@.payload)),
    {
        let ghost field = payload_field(self@.payload);
        let ghost body = seq![0x68u8] + self.addr@.reverse() + seq![
            0x68u8,
            self.code,
            field.len() as u8,
        ] + field;
        let mut container = [0u8; 31];
        let mut i: usize = 0;

        container[i] = 0x68;
        i += 1;
        // the address goes lowest byte first
        let mut j: usize = 0;
        while j < 6
            invariant
                j <= 6,
                i == 1 + j,
                body == seq![0x68u8] + self.addr@.reverse() + seq![
                    0x68u8,
                    self.code,
                    field.len() as u8,
                ] + field,
                forall|k: int| 0 <= k < i ==> container@[k] == body[k],
            decreases 6 - j,
        {
            container[i] = self.addr[5 - j];
            i += 1;
            j += 1;
        }
        container[i] = 0x68;
        i += 1;
        container[i] = self.code;
        i += 1;
        if let Some(payload) = self.payload {
            let field_len = payload.len() - 1;
            container[i] = field_len;
            i += 1;
            let mut start: usize = 10;
            if let Some(di) = payload.data_identifiers {
                let di_bytes = le_bytes_of(di + 0x3333_3333u32);
                let mut k: usize = 0;
                while k < 4
                    invariant
                        k <= 4,
                        i == 10 + k,
                        body == seq![0x68u8] + self.addr@.reverse() + seq![
                            0x68u8,
                            self.code,
                            field.len() as u8,
                        ] + field,
                        field == le_bytes_u32((di + 0x3333_3333) as u32) + payload.data@.take(
                            payload.data_len as int,
                        ),
                        di_bytes@ == le_bytes_u32((di + 0x3333_3333) as u32),
                        forall|m: int| 0 <= m < i ==> container@[m] == body[m],
                    decreases 4 - k,
                {
                    container[i] = di_bytes[k];
                    i += 1;
                    k += 1;
                }
                start = 14;
            }
            let mut k: usize = 0;
            while k < payload.data_len as usize
                invariant
                    payload.data_len <= 11,
                    k <= payload.data_len,
                    i == start + k,
                    start == 10 || start == 14,
                    field.len() == start - 10 + payload.data_len,
                    body == seq![0x68u8] + self.addr@.reverse() + seq![
                        0x68u8,
                        self.code,
                        field.len() as u8,
                    ] + field,
                    forall|m: int| 0 <= m < payload.data_len ==> field[start - 10 + m] == payload.data@[m],
                    forall|m: int| 0 <= m < i ==> container@[m] == body[m],
                decreases payload.data_len - k,
            {
                container[i] = payload.data[k];
                i += 1;
                k += 1;
            }
        } else {
            container[i] = 0;
            i += 1;
        }
        assert(container@.subrange(0, i as int) =~= body);
        let cs = checksum(&container[0..i]);
        container[i] = cs;
        i += 1;
        container[i] = 0x16;
        i += 1;
        assert(container@.subrange(0, i as int) =~= body.push(checksum_of(body)).push(0x16u8));
        DLT645_2007Raw { len: i as u8, container }
    }

    /// Reads a frame from received bytes.
    pub(crate) fn parse_from_raw(raw: &[u8]) -> (r: Result<DLT645_2007, MeterError>)
        requires
            frame_checks_pass(raw@) ==> payload_decodable(raw@),
        ensures
            match parse_frame(raw@) {
                Ok(v) => r matches Ok(f) && f@ == v,
                Err(e) => r == Err::<DLT645_2007, MeterError>(e),
            },
    {
        // a well-formed frame has at least 12 bytes
        if raw.len() < 12 || raw[0] != 0x68 || raw[7] != 0x68 {
            return Err(MeterError::BadData);
        }
        let code = raw[8];
        let mut payload_len = raw[9];

        // length before the check byte
        let len = raw.len() - 2;
        if checksum(&raw[0..len]) != raw[raw.len() - 2] {
            return Err(MeterError::ErrCRC);
        }
        if raw[raw.len() - 1] != 0x16 {
            return Err(MeterError::BadData);
        }

        let payload = if payload_len == 0 {
            None
        } else {
            let mut data_len = payload_len;
            payload_len += 1;
            let data_identifiers;
            let mut data = [0u8; 11];
            let read_data = Code::ReadData.val();
            let read_subsequent = Code::ReadSubsequentData.val();
            let read_data_reply = read_data | 0x80;
            let read_subsequent_reply = read_subsequent | 0x80;
            assert(read_data_reply == 0x91 && read_subsequent_reply == 0x92) by (bit_vector)
                requires
                    read_data == 0x11u8,
                    read_subsequent == 0x12u8,
                    read_data_reply == read_data | 0x80u8,
                    read_subsequent_reply == read_subsequent | 0x80u8,
            ;
            let start: usize;
            if read_data_reply == code || read_subsequent_reply == code {
                assert(raw@.subrange(10, 14) =~= seq![raw@[10], raw@[11], raw@[12], raw@[13]]);
                data_identifiers = Some(le_u32_of(raw[10], raw[11], raw[12], raw[13]) - 0x3333_3333);
                data_len -= 4;
                start = 14;
            } else {
                data_identifiers = None;
                start = 10;
            }
            let mut k: usize = 0;
            while k < data_len as usize
                invariant
                    data_len <= 11,
                    start + data_len <= raw@.len(),
                    start <= 14,
                    k <= data_len,
                    forall|m: int| 0 <= m < k ==> data@[m] == raw@[start + m],
                    forall|m: int| k <= m < 11 ==> data@[m] == 0,
                decreases data_len - k,
            {
                data[k] = raw[start + k];
                k += 1;
            }
            assert(data@ =~= zero_pad(raw@.subrange(start as int, start + data_len)));
            Some(Payload { data_identifiers, data_len, data })
        };

        // the address arrives lowest byte first
        let mut addr = [0u8; 6];
        let mut k: usize = 0;
        while k < 6
            invariant
                raw@.len() >= 12,
                k <= 6,
                forall|m: int| 0 <= m < k ==> addr@[m] == raw@[6 - m],
            decreases 6 - k,
        {
            addr[k] = raw[6 - k];
            k += 1;
        }
        assert(addr =~= arr6(raw@.subrange(1, 7).reverse()));
        Ok(DLT645_2007 { addr, code, payload_len, payload })
    }
}

impl DLT645_2007 {
    /// What a received frame decodes to, by its control code.
    pub(crate) fn into_result(self) -> (r: Result<MeterResult, MeterError>)
        requires
            frame_result_total(self@),
        ensures
            r == frame_result(self@),
    {
        let code = self.code;
        proof {
            lemma_code_bits(code);
        }
        if code & Code::SlaveFlag.val() == 0 {
            Err(MeterError::NotSlaveMessage)
        } else if code & Code::SlaveACKErr.val() != 0 {
            Err(MeterError::SlaveAckErr)
        } else if code & Code::SubsequentDataFollowUp.val() != 0 {
            Err(MeterError::UnsupportedYetSubsequentDataFollowUpFlag)
        } else {
            match Code::from_byte(code & !Code::SlaveFlag.val()) {
                Code::Reserved => Err(MeterError::ReservedCode),
                Code::BroadcastTime => Err(MeterError::UnsupportedYetBroadcastTime),
                Code::ReadData => {
                    if let Some(p) = self.payload {
                        p.into_result()
                    } else {
                        Err(MeterError::UnExpectedNonePayload)
                    }
                },
                Code::ReadSubsequentData => Err(MeterError::UnsupportedYetReadSubsequentData),
                Code::ReadAddr => {
                    if let Some(p) = self.payload {
                        p.into_result()
                    } else {
                        Err(MeterError::UnExpectedNoneAddr)
                    }
                },
                Code::WriteData => Err(MeterError::UnsupportedYetWriteData),
                Code::WriteAddr => {
                    if self.payload.is_some() {
                        Err(MeterError::UnExpectedPayload)
                    } else {
                        Ok(MeterResult::SetMeterAddrSuccess(self.addr))
                    }
                },
                Code::FreezeCmd => Err(MeterError::UnsupportedFreezeCmd),
                Code::ChangeBaudrate => {
                    if let Some(p) = self.payload {
                        match p.data[0] - 0x33 {
                            0x04 => Ok(MeterResult::BaudRate(BaudRate::Baud1200)),
                            0x08 => Ok(MeterResult::BaudRate(BaudRate::Baud2400)),
                            0x10 => Ok(MeterResult::BaudRate(BaudRate::Baud4800)),
                            0x20 => Ok(MeterResult::BaudRate(BaudRate::Baud9600)),
                            _ => Err(MeterError::UnknownBaudrate),
                        }
                    } else {
                        Err(MeterError::UnExpectedNonePayload)
                    }
                },
                Code::ChangPasswd => Err(MeterError::UnsupportedYetChangePasswd),
                Code::ResetMaxDemand => Err(MeterError::UnsupportedYetResetMaxDemand),
                Code::ResetMeter => Ok(MeterResult::ResetMeterSuccess(self.addr)),
                Code::ResetEvent => Err(MeterError::UnsupportedYetResetEvent),
                _ => Err(MeterError::UnknownErr),
            }
        }
    }
}

impl DLT645_2007 {
    /// Decoding this frame stays within the value ranges.
    pub(crate) fn decodes_in_range(&self) -> (b: bool)
        ensures
            b == frame_result_total(self@),
    {
        let code = self.code;
        proof {
            lemma_code_bits(code);
        }
        if code & 0x80 == 0 || code & 0x40 != 0 || code & 0x20 != 0 {
            return true;
        }
        let fun = code & 0x7F;
        assert(fun == code % 128) by (bit_vector)
            requires
                fun == code & 0x7Fu8,
        ;
        match &self.payload {
            Some(p) => {
                if fun == 0x11 || fun == 0x13 {
                    p.decodes_in_range()
                } else if fun == 0x17 {
                    p.data[0] >= 0x33
                } else {
                    true
                }
            },
            None => true,
        }
    }
}

impl Payload {
    /// Decoding this payload stays within the value ranges.
    pub(crate) fn decodes_in_range(&self) -> (b: bool)
        ensures
            b == payload_result_total(self@),
    {
        if let Some(di) = self.data_identifiers {
            if di == DI_IM1281X_PHASE_A_ACTIVE_ENERGY || di == DI_IM1281X_PHASE_B_ACTIVE_ENERGY {
                le_u32_of(self.data[0], self.data[1], self.data[2], self.data[3]) >= 0x3333_3333
            } else if di == DI_DLT645_PHASE_A_VOLTAGE || di == DI_DLT645_TEMPERATURE {
                le_u16_of(self.data[0], self.data[1]) >= 0x3333
            } else if di == DI_DLT645_PHASE_A_CURRENT {
                self.data[0] >= 0x33 && self.data[1] >= 0x33 && self.data[2] >= 0x33
            } else {
                true
            }
        } else {
            let mut k: usize = 0;
            while k < 6
                invariant
                    k <= 6,
                    self.data_identifiers is None,
                    forall|m: int| 0 <= m < k ==> self.data@[m] >= 0x33,
                decreases 6 - k,
            {
                if self.data[k] < 0x33 {
                    assert(self@.data[k as int] < 0x33);
                    return false;
                }
                k += 1;
            }
            true
        }
    }
}

/// The flag bits of a control code, as numbers.
proof fn lemma_code_bits(c: u8)
    by (bit_vector)
    ensures
        (c & 0x80u8 == 0) == (c < 0x80),
        (c & 0x40u8 != 0) == ((c / 64) % 2 == 1),
        (c & 0x20u8 != 0) == ((c / 32) % 2 == 1),
        c & !0x80u8 == c % 128,
{
}

impl Payload {
    /// What a reply payload decodes to.
    pub(crate) fn into_result(self) -> (r: Result<MeterResult, MeterError>)
        requires
            payload_result_total(self@),
        ensures
            r == payload_result(self@),
    {
        if let Some(di) = self.data_identifiers {
            if di == DI_IM1281X_PHASE_A_ACTIVE_ENERGY {
                let v = le_u32_of(self.data[0], self.data[1], self.data[2], self.data[3]);
                Ok(MeterResult::PhaseAActiveEnergyUnit0_01KWh(v - 0x3333_3333))
            } else if di == DI_IM1281X_PHASE_B_ACTIVE_ENERGY {
                let v = le_u32_of(self.data[0], self.data[1], self.data[2], self.data[3]);
                Ok(MeterResult::PhaseBActiveEnergyUnit0_01KWh(v - 0x3333_3333))
            } else if di == DI_DLT645_PHASE_A_VOLTAGE {
                let v = le_u16_of(self.data[0], self.data[1]);
                Ok(MeterResult::PhaseAVoltageUnit0_1V(v - 0x3333))
            } else if di == DI_DLT645_PHASE_A_CURRENT {
                // three offset bytes, lowest first
                let current = (self.data[0] - 0x33) as u32 + (self.data[1] - 0x33) as u32 * 256
                    + (self.data[2] - 0x33) as u32 * 65536;
                Ok(MeterResult::PhaseACurrentmA(current))
            } else if di == DI_DLT645_TEMPERATURE {
                let v = le_u16_of(self.data[0], self.data[1]);
                Ok(MeterResult::TemperatureUnit0_1C(v - 0x3333))
            } else if di == DI_IM1281X_BAUD_RATE {
                match self.data[0] {
                    0x04 => Ok(MeterResult::BaudRate(BaudRate::Baud1200)),
                    0x08 => Ok(MeterResult::BaudRate(BaudRate::Baud2400)),
                    0x10 => Ok(MeterResult::BaudRate(BaudRate::Baud4800)),
                    0x20 => Ok(MeterResult::BaudRate(BaudRate::Baud9600)),
                    _ => Err(MeterError::UnknownBaudrate),
                }
            } else {
                Err(MeterError::UnsupportedYetDI(di))
            }
        } else {
            // no identifier: the payload is the meter's address, lowest byte first
            let mut addr = [0u8; 6];
            let mut k: usize = 0;
            while k < 6
                invariant
                    k <= 6,
                    forall|m: int| 0 <= m < 6 ==> self.data@[m] >= 0x33,
                    forall|m: int| 0 <= m < k ==> addr@[m] == self.data@[5 - m] - 0x33,
                decreases 6 - k,
            {
                addr[k] = self.data[5 - k] - 0x33;
                k += 1;
            }
            assert(addr =~= arr6(Seq::new(6, |i: int| (self.data@[5 - i] - 0x33) as u8)));
            Ok(MeterResult::MeterAddr(addr))
        }
    }

    /// The payload of the request for `fc`.
    pub(crate) fn for_function(fc: &FunctionCode) -> (r: Option<Payload>)
        requires
            request_encodable(*fc),
        ensures
            opt_view(r) == request_payload(*fc),
            r matches Some(p) ==> p.wf() && (p.data_identifiers matches Some(di) ==> di
                <= 0xCCCC_CCCC),
    {
        match fc {
            FunctionCode::MasterQuerySlaveAddr => None,
            FunctionCode::MasterSetSlaveAddr(addr) => {
                // the new address goes lowest byte first, each byte offset by 0x33
                let mut data = [0u8; 11];
                let mut k: usize = 0;
                while k < 6
                    invariant
                        k <= 6,
                        forall|m: int| 0 <= m < 6 ==> addr@[m] <= 0xCC,
                        forall|m: int| 0 <= m < k ==> data@[m] == addr@[5 - m] + 0x33,
                        forall|m: int| k <= m < 11 ==> data@[m] == 0,
                    decreases 6 - k,
                {
                    data[k] = addr[5 - k] + 0x33;
                    k += 1;
                }
                let p = Payload { data_identifiers: None, data_len: 6, data };
                assert(p@.data =~= request_payload(*fc)->0.data);
                Some(p)
            },
            FunctionCode::MasterChangeSlaveBaudRate(baud) => {
                let mut data = [0u8; 11];
                match baud {
                    BaudRate::Baud1200 => data[0] = 0x04 + 0x33,
                    BaudRate::Baud2400 => data[0] = 0x08 + 0x33,
                    BaudRate::Baud4800 => data[0] = 0x10 + 0x33,
                    BaudRate::Baud9600 => data[0] = 0x20 + 0x33,
                };
                let p = Payload { data_identifiers: None, data_len: 1, data };
                assert(p@.data =~= request_payload(*fc)->0.data);
                Some(p)
            },
            FunctionCode::MQueryPhaseAActiveEnergyIM1281X => {
                let p = Payload {
                    data_identifiers: Some(DI_IM1281X_PHASE_A_ACTIVE_ENERGY),
                    data_len: 0,
                    data: [0u8; 11],
                };
                assert(p@.data =~= request_payload(*fc)->0.data);
                Some(p)
            },
            FunctionCode::MQueryPhaseBActiveEnergyIM1281X => {
                let p = Payload {
                    data_identifiers: Some(DI_IM1281X_PHASE_B_ACTIVE_ENERGY),
                    data_len: 0,
                    data: [0u8; 11],
                };
                assert(p@.data =~= request_payload(*fc)->0.data);
                Some(p)
            },
            FunctionCode::MQueryTemperature => {
                let p = Payload {
                    data_identifiers: Some(DI_DLT645_TEMPERATURE),
                    data_len: 0,
                    data: [0u8; 11],
                };
                assert(p@.data =~= request_payload(*fc)->0.data);
                Some(p)
            },
            FunctionCode::MQueryPhaseACurrent => {
                let p = Payload {
                    data_identifiers: Some(DI_DLT645_PHASE_A_CURRENT),
                    data_len: 0,
                    data: [0u8; 11],
                };
                assert(p@.data =~= request_payload(*fc)->0.data);
                Some(p)
            },
            FunctionCode::MResetMeter => {
                let p = Payload {
                    data_identifiers: None,
                    data_len: 8,
                    data: [0x33, 0x33, 0x33, 0x33, 0x33, 0x33, 0x33, 0x33, 0, 0, 0],
                };
                assert(p@.data =~= request_payload(*fc)->0.data);
                Some(p)
            },
        }
    }
}

/// The little-endian number of two bytes.
fn le_u16_of(b0: u8, b1: u8) -> (v: u16)
    ensures
        v == le_u16(seq![b0, b1]),
{
    b0 as u16 + b1 as u16 * 256
}

/// The little-endian number of four bytes.
pub(crate) fn le_u32_of(b0: u8, b1: u8, b2: u8, b3: u8) -> (v: u32)
    ensures
        v == le_u32(seq![b0, b1, b2, b3]),
{
    b0 as u32 + b1 as u32 * 256 + b2 as u32 * 65536 + b3 as u32 * 16777216
}

} // verus!
