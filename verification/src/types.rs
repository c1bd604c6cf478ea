//! The enumerated fields of the container header: device type, sample format
//! and compression method, with their one-byte wire encodings.

use vstd::prelude::*;

use crate::error::GlosError;

verus! {

/// Kind of SDR receiver a recording came from.
#[derive(Debug, Clone, Copy, PartialEq, Eq, Structural)]
pub enum SdrType {
    /// HackRF One.
    HackRf,
    /// ADALM-PlutoSDR.
    PlutoSdr,
    /// USRP B200 family.
    UsrpB200,
    /// Unknown device.
    Unknown,
}

/// Layout of one I/Q sample pair in the payload.
#[derive(Debug, Clone, Copy, PartialEq, Eq, Structural)]
pub enum IqFormat {
    /// One signed byte per component.
    Int8,
    /// One signed 16-bit integer per component.
    Int16,
    /// One 32-bit IEEE-754 value per component.
    Float32,
}

/// Compression applied to block payloads.
#[derive(Debug, Clone, Copy, PartialEq, Eq, Structural)]
pub enum Compression {
    /// Payload bytes stored as they are.
    Uncompressed,
    /// Payload bytes replaced by their LZ4 encoding, with the original
    /// length prepended.
    Lz4,
}

/// Wire byte of a device type.
pub open spec fn sdr_type_u8(t: SdrType) -> u8 {
    match t {
        SdrType::HackRf => 0,
        SdrType::PlutoSdr => 1,
        SdrType::UsrpB200 => 2,
        SdrType::Unknown => 255,
    }
}

/// Device type read from a wire byte; every byte maps to some device,
/// unrecognized ones to `Unknown`.
pub open spec fn sdr_type_of_u8(v: u8) -> SdrType {
    if v == 0 {
        SdrType::HackRf
    } else if v == 1 {
        SdrType::PlutoSdr
    } else if v == 2 {
        SdrType::UsrpB200
    } else {
        SdrType::Unknown
    }
}

/// Wire byte of a sample format.
pub open spec fn iq_format_u8(f: IqFormat) -> u8 {
    match f {
        IqFormat::Int8 => 0,
        IqFormat::Int16 => 1,
        IqFormat::Float32 => 2,
    }
}

/// Sample format read from a wire byte; meaningful only for bytes below 3.
pub open spec fn iq_format_of_u8(v: u8) -> IqFormat
    recommends
        v < 3,
{
    if v == 0 {
        IqFormat::Int8
    } else if v == 1 {
        IqFormat::Int16
    } else {
        IqFormat::Float32
    }
}

/// Bytes of a sample pair in a format, as a spec-level number.
pub open spec fn spec_sample_size(f: IqFormat) -> nat {
    match f {
        IqFormat::Int8 => 2,
        IqFormat::Int16 => 4,
        IqFormat::Float32 => 8,
    }
}

/// Wire byte of a compression method.
pub open spec fn compression_u8(c: Compression) -> u8 {
    match c {
        Compression::Uncompressed => 0,
        Compression::Lz4 => 1,
    }
}

/// Compression method read from a wire byte; meaningful only for bytes
/// below 2.
pub open spec fn compression_of_u8(v: u8) -> Compression
    recommends
        v < 2,
{
    if v == 0 {
        Compression::Uncompressed
    } else {
        Compression::Lz4
    }
}

impl SdrType {
    /// Maps a wire byte to a device type; unrecognized bytes give `Unknown`.
    pub fn from_u8(v: u8) -> (r: Self)
        ensures
            r == sdr_type_of_u8(v),
    {
        match v {
            0 => SdrType::HackRf,
            1 => SdrType::PlutoSdr,
            2 => SdrType::UsrpB200,
            _ => SdrType::Unknown,
        }
    }

    /// The wire byte of this device type.
    pub fn as_u8(&self) -> (r: u8)
        ensures
            r == sdr_type_u8(*self),
    {
        match self {
            SdrType::HackRf => 0,
            SdrType::PlutoSdr => 1,
            SdrType::UsrpB200 => 2,
            SdrType::Unknown => 255,
        }
    }
}

impl IqFormat {
    /// Maps a wire byte to a sample format; bytes of no format are a
    /// format violation.
    pub fn from_u8(v: u8) -> (r: Result<Self, GlosError>)
        ensures
            v < 3 <==> r is Ok,
            r matches Ok(f) ==> f == iq_format_of_u8(v),
            r matches Err(e) ==> e is FormatViolation,
    {
        match v {
            0 => Ok(IqFormat::Int8),
            1 => Ok(IqFormat::Int16),
            2 => Ok(IqFormat::Float32),
            _ => Err(GlosError::format_violation("unknown IQ format byte")),
        }
    }

    /// The wire byte of this sample format.
    pub fn as_u8(&self) -> (r: u8)
        ensures
            r == iq_format_u8(*self),
    {
        match self {
            IqFormat::Int8 => 0,
            IqFormat::Int16 => 1,
            IqFormat::Float32 => 2,
        }
    }

    /// Bytes one I/Q pair occupies in this format.
    pub fn sample_size(&self) -> (r: usize)
        ensures
            r == spec_sample_size(*self),
    {
        match self {
            IqFormat::Int8 => 2,
            IqFormat::Int16 => 4,
            IqFormat::Float32 => 8,
        }
    }
}

impl Compression {
    /// Maps a wire byte to a compression method; bytes of no method are a
    /// format violation.
    pub fn from_u8(v: u8) -> (r: Result<Self, GlosError>)
        ensures
            v < 2 <==> r is Ok,
            r matches Ok(c) ==> c == compression_of_u8(v),
            r matches Err(e) ==> e is FormatViolation,
    {
        match v {
            0 => Ok(Compression::Uncompressed),
            1 => Ok(Compression::Lz4),
            _ => Err(GlosError::format_violation("unknown compression byte")),
        }
    }

    /// The wire byte of this compression method.
    pub fn as_u8(&self) -> (r: u8)
        ensures
            r == compression_u8(*self),
    {
        match self {
            Compression::Uncompressed => 0,
            Compression::Lz4 => 1,
        }
    }
}

} // verus!
