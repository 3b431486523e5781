//! The values that cross the library's boundary: requests, decoded results and errors.
use vstd::prelude::*;

verus! {

/// A request that the master (collector) sends to a meter module.
#[derive(Debug, PartialEq, Eq)]
pub enum FunctionCode {
    /// Read the module's address (point-to-point links only).
    MasterQuerySlaveAddr,
    /// Set the module's address (point-to-point links only).
    MasterSetSlaveAddr([u8; 6]),
    /// Change the line's baud rate.
    MasterChangeSlaveBaudRate(BaudRate),
    /// Clear the meter's readings (the address is kept).
    MResetMeter,
    /// Read the current of line A.
    MQueryPhaseACurrent,
    /// Read the total active energy of line A (IM1281X modules).
    MQueryPhaseAActiveEnergyIM1281X,
    /// Read the total active energy of line B (IM1281X modules).
    MQueryPhaseBActiveEnergyIM1281X,
    /// Read the module's temperature.
    MQueryTemperature,
}

/// What a meter's reply frame decodes to.
#[allow(non_camel_case_types)]
#[derive(Debug, PartialEq, Eq)]
pub enum MeterResult {
    /// The module's address.
    MeterAddr([u8; 6]),
    /// Voltage of line A, in units of 0.1 V.
    PhaseAVoltageUnit0_1V(u16),
    /// Current of line A, in mA.
    PhaseACurrentmA(u32),
    /// Total active energy of line A, in units of 0.01 kWh.
    PhaseAActiveEnergyUnit0_01KWh(u32),
    /// Total active energy of line B, in units of 0.01 kWh.
    PhaseBActiveEnergyUnit0_01KWh(u32),
    /// Temperature, in units of 0.1 degree Celsius.
    TemperatureUnit0_1C(u16),
    /// The line's baud rate.
    BaudRate(BaudRate),
    /// The address was set; the reply came from this address.
    SetMeterAddrSuccess([u8; 6]),
    /// The readings were cleared; the reply came from this address.
    ResetMeterSuccess([u8; 6]),
}

/// The baud rates a module can be switched to.
#[derive(Debug, PartialEq, Eq)]
pub enum BaudRate {
    Baud1200,
    Baud2400,
    Baud4800,
    Baud9600,
}

/// Why a frame was refused or a request failed.
#[derive(Debug, PartialEq, Eq)]
pub enum MeterError {
    BadData,
    ErrCRC,
    UnsupportedYetDI(u32),
    UnsupportedYetChangePasswd,
    UnsupportedYetResetMaxDemand,
    UnsupportedYetResetEvent,
    UnsupportedYetBroadcastTime,
    UnsupportedYetWriteData,
    UnsupportedFreezeCmd,
    UnExpectedNonePayload,
    UnExpectedPayload,
    UnExpectedNoneAddr,
    UnknownBaudrate,
    ParseResultFailed,
    IoErr(MeterIOError),
    NotSlaveMessage,
    SlaveAckErr,
    UnsupportedYetSubsequentDataFollowUpFlag,
    UnsupportedYetReadSubsequentData,
    UnknownErr,
    ParseAddrFromStringErr,
    ReservedCode,
}

/// Failures of the transport that carries the frames.
#[derive(Debug, PartialEq, Eq)]
pub enum MeterIOError {
    TimeOutReadExactBytes,
    IncompleteWrite,
    Std(String),
}

impl From<MeterIOError> for MeterError {
    fn from(value: MeterIOError) -> (r: Self) {
        MeterError::IoErr(value)
    }
}

impl vstd::std_specs::convert::FromSpecImpl<MeterIOError> for MeterError {
    open spec fn obeys_from_spec() -> bool {
        true
    }

    open spec fn from_spec(value: MeterIOError) -> Self {
        MeterError::IoErr(value)
    }
}

} // verus!
