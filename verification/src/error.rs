//! Errors of frame building and of the socket layer.

use vstd::prelude::*;
use vstd::string::StringExecFns;

use crate::text;
use crate::text::append_decimal;

verus! {

/// Why a packet could not be built, parsed or sent.
#[derive(Debug, Clone, Copy, PartialEq, Eq, Structural)]
pub enum UdpError {
    InvalidPacket,
    ChecksumMismatch,
    PacketTooShort { expected: usize, actual: usize },
    PayloadTooLarge { max: usize, actual: usize },
    PortNotStarted,
    NotConnected,
    Ipv6NotSupported,
}

pub type UdpResult<T> = Result<T, UdpError>;

impl UdpError {
    /// The error message.
    pub open spec fn text(self) -> Seq<char> {
        match self {
            UdpError::InvalidPacket => "Invalid packet format"@,
            UdpError::ChecksumMismatch => "Checksum mismatch"@,
            UdpError::PacketTooShort {
                expected,
                actual,
            } => "Packet too short: expected at least "@ + text::decimal(expected as nat)
                + ", got "@ + text::decimal(actual as nat),
            UdpError::PayloadTooLarge { max, actual } => "Payload too large: max "@
                + text::decimal(max as nat) + ", got "@ + text::decimal(actual as nat),
            UdpError::PortNotStarted => "Port not started"@,
            UdpError::NotConnected => "No destination address (socket not connected)"@,
            UdpError::Ipv6NotSupported => "IPv6 not supported"@,
        }
    }

    /// The error message.
    pub fn message(&self) -> (r: String)
        ensures
            r@ == self.text(),
    {
        match *self {
            UdpError::InvalidPacket => String::from_str("Invalid packet format"),
            UdpError::ChecksumMismatch => String::from_str("Checksum mismatch"),
            UdpError::PacketTooShort { expected, actual } => two_numbers(
                "Packet too short: expected at least ",
                expected,
                actual,
            ),
            UdpError::PayloadTooLarge { max, actual } => two_numbers(
                "Payload too large: max ",
                max,
                actual,
            ),
            UdpError::PortNotStarted => String::from_str("Port not started"),
            UdpError::NotConnected => String::from_str(
                "No destination address (socket not connected)",
            ),
            UdpError::Ipv6NotSupported => String::from_str("IPv6 not supported"),
        }
    }
}

fn two_numbers(intro: &str, first: usize, second: usize) -> (r: String)
    ensures
        r@ == intro@ + text::decimal(first as nat) + ", got "@ + text::decimal(second as nat),
{
    let mut s = String::from_str(intro);
    append_decimal(&mut s, first as u64);
    s.append(", got ");
    append_decimal(&mut s, second as u64);
    s
}

/// The class of an I/O error.
#[derive(Debug, Clone, Copy, PartialEq, Eq, Structural)]
pub enum ErrorKind {
    AddrNotAvailable,
    ConnectionRefused,
    InvalidData,
    InvalidInput,
    NotConnected,
    PermissionDenied,
    TimedOut,
    WouldBlock,
    Other,
}

/// An I/O error of the socket layer.
#[derive(Debug, Clone, PartialEq, Eq)]
pub struct IoError {
    pub kind: ErrorKind,
    pub message: String,
}

impl IoError {
    /// An error of class `kind` with a fixed message.
    pub fn new(kind: ErrorKind, message: &str) -> (r: Self)
        ensures
            r.kind == kind,
            r.message@ == message@,
    {
        IoError { kind, message: String::from_str(message) }
    }

    pub fn kind(&self) -> (r: ErrorKind)
        ensures
            r == self.kind,
    {
        self.kind
    }
}

} // verus!
