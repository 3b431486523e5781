//! A DL/T 645-2007 electricity-meter protocol library: it builds the request
//! frames a master sends to a meter module and decodes the module's replies.
#![allow(non_snake_case)]

mod frame;
pub mod laws;
pub mod protocol;
pub mod spec;
pub mod types;

pub use frame::DLT645_2007Raw;
pub use types::{BaudRate, FunctionCode, MeterError, MeterIOError, MeterResult};

use frame::{checksum, le_u32_of, Code, Payload, DLT645_2007};
use spec::{frame_decodable, parse_result, reply_len, request_encodable, request_frame};
use vstd::prelude::*;

verus! {

/// Parses the meter's result from a raw DL/T 645 reply frame.
///
/// The frame must be one that decodes without leaving its bounds or value
/// ranges (`frame_decodable`; `frame_is_decodable` tells).
pub fn parse_result_from_raw_frame(buf: &[u8]) -> (r: Result<MeterResult, MeterError>)
    requires
        frame_decodable(buf@),
    ensures
        r == parse_result(buf@),
{
    match DLT645_2007::parse_from_raw(buf) {
        Ok(frame) => frame.into_result(),
        Err(e) => Err(e),
    }
}

/// Whether `buf` decodes without leaving its bounds or value ranges: it is
/// refused by the framing checks, or its payload and values fit.
pub fn frame_is_decodable(buf: &[u8]) -> (b: bool)
    ensures
        b == frame_decodable(buf@),
{
    if buf.len() < 12 || buf[0] != 0x68 || buf[7] != 0x68 {
        return true;
    }
    if checksum(&buf[0..buf.len() - 2]) != buf[buf.len() - 2] || buf[buf.len() - 1] != 0x16 {
        return true;
    }
    let l = buf[9];
    if l != 0 {
        if l == 255 {
            return false;
        }
        if buf[8] == 0x91 || buf[8] == 0x92 {
            if buf.len() < 14 {
                return false;
            }
            assert(buf@.subrange(10, 14) =~= seq![buf@[10], buf@[11], buf@[12], buf@[13]]);
            if le_u32_of(buf[10], buf[11], buf[12], buf[13]) < 0x3333_3333 {
                return false;
            }
            if l < 4 || l > 15 || 10 + l as usize > buf.len() {
                return false;
            }
        } else if l > 11 || 10 + l as usize > buf.len() {
            return false;
        }
    }
    match DLT645_2007::parse_from_raw(buf) {
        Ok(frame) => frame.decodes_in_range(),
        Err(_) => true,
    }
}

/// Generates the raw DL/T 645 request frame for `fc`.
///
/// The two address requests go to the wildcard address AA..AA; the others go
/// to `addr`, or to 11..11 without one.
pub fn generate_raw_frame(addr: Option<[u8; 6]>, fc: &FunctionCode) -> (raw: DLT645_2007Raw)
    requires
        request_encodable(*fc),
    ensures
        raw@ == request_frame(addr, *fc),
{
    let dest = match fc {
        FunctionCode::MasterQuerySlaveAddr => [0xAAu8; 6],
        FunctionCode::MasterSetSlaveAddr(_) => [0xAAu8; 6],
        _ => {
            if let Some(addr) = addr {
                addr
            } else {
                [0x11u8; 6]
            }
        },
    };
    assert(dest =~= spec::request_address(addr, *fc));
    DLT645_2007::new(dest, Code::for_function(fc), Payload::for_function(fc)).to_dlt645_2007raw()
}

/// Whether a request for `fc` can be encoded: a new address must have every
/// byte at most 0xCC, to carry the +0x33 byte offset.
pub fn request_is_encodable(fc: &FunctionCode) -> (b: bool)
    ensures
        b == request_encodable(*fc),
{
    match fc {
        FunctionCode::MasterSetSlaveAddr(a) => {
            a[0] <= 0xCC && a[1] <= 0xCC && a[2] <= 0xCC && a[3] <= 0xCC && a[4] <= 0xCC && a[5]
                <= 0xCC
        },
        _ => true,
    }
}

/// How many bytes the meter's reply to `fc` has: 12 framing bytes plus the
/// data field of the reply.
pub fn __bytes_should_recv(fc: FunctionCode) -> (n: usize)
    ensures
        n == reply_len(fc),
{
    match fc {
        FunctionCode::MasterQuerySlaveAddr => 12 + 6,
        FunctionCode::MasterSetSlaveAddr(_) => 12,
        FunctionCode::MasterChangeSlaveBaudRate(_) => 12 + 1,
        FunctionCode::MQueryPhaseAActiveEnergyIM1281X => 12 + 4 + 4,
        FunctionCode::MQueryPhaseBActiveEnergyIM1281X => 12 + 4 + 4,
        FunctionCode::MQueryTemperature => 12 + 4 + 2,
        FunctionCode::MQueryPhaseACurrent => 12 + 4 + 3,
        FunctionCode::MResetMeter => 12,
    }
}

} // verus!
