//! The failures that discovery, transfer and serving can report.

use vstd::prelude::*;
use crate::models::Field;

verus! {

/// A key of the text record that a console publishes about itself.
#[derive(Debug, Clone, Copy, PartialEq, Eq, Structural)]
pub enum TxtKey {
    /// `N`: the console's name.
    Name,
    /// `U`: the console's identifier.
    Identifier,
}

/// Every failure of the library. None of them aborts the process.
#[derive(Debug, Clone, Copy, PartialEq, Eq, Structural)]
pub enum Error {
    /// The multicast responder refused to start, to browse or to register, or
    /// a service record could not be built.
    MdnsError,
    /// Nothing was resolved within the discovery window.
    TimeoutError,
    /// A resolved record lacks a required text property.
    MissingProperty(TxtKey),
    /// A resolved record advertises no address.
    MissingAddress,
    /// The address of a console does not make a URL.
    InvalidAddress,
    /// A path is too long to make a URL of.
    PathTooLong,
    /// A request failed on the network.
    HttpError,
    /// Reading a response or writing to the destination failed.
    IoError,
    /// The length probe was answered with a status other than 206.
    UnexpectedStatus(u16),
    /// The answer to the length probe has no content-range header.
    MissingContentRange,
    /// The content-range header does not end in a total length.
    MalformedContentRange,
    /// Fewer or more bytes were transferred than were asked for.
    ByteCountMismatch { expected: usize, actual: usize },
    /// The manifest lacks a member that every item must have.
    MissingField(Field),
    /// A member of the manifest is not of the kind that the schema gives it.
    InvalidField(Field),
    /// The number that was chosen is not the number of an interface.
    InvalidChoice,
    /// The interface that was chosen has no IPv4 address.
    NoIpv4Address,
    /// An event arrived that the transfer was not waiting for.
    UnexpectedEvent,
    /// A content key without `#`, or with nothing behind it.
    MalformedContentKey,
    /// The drive id of a content key is not a well-formed UUID.
    InvalidDriveId,
    /// The file that a content key names does not exist.
    FileNotFound,
    /// The requested range lies outside a file of `total` bytes.
    RangeNotSatisfiable { total: usize },
}

impl Error {
    /// The status code that a server answers with when a request fails with
    /// this error.
    pub open spec fn spec_http_status(&self) -> u16 {
        match self {
            Error::MalformedContentKey => 400,
            Error::InvalidDriveId => 400,
            Error::FileNotFound => 404,
            Error::RangeNotSatisfiable { .. } => 416,
            _ => 500,
        }
    }

    pub fn http_status(&self) -> (code: u16)
        ensures
            code == self.spec_http_status(),
    {
        match self {
            Error::MalformedContentKey => 400,
            Error::InvalidDriveId => 400,
            Error::FileNotFound => 404,
            Error::RangeNotSatisfiable { .. } => 416,
            _ => 500,
        }
    }

    /// The component that the failure belongs to, for messages.
    pub open spec fn spec_message(&self) -> Seq<char> {
        match self {
            Error::MdnsError => "MDNS Error"@,
            Error::TimeoutError => "Timeout Error"@,
            Error::MissingProperty(_) => "Malformed service record"@,
            Error::MissingAddress => "Malformed service record"@,
            Error::InvalidAddress => "Invalid address"@,
            Error::PathTooLong => "Path too long"@,
            Error::HttpError => "HTTP Error"@,
            Error::IoError => "IO Error"@,
            Error::UnexpectedStatus(_) => "Unexpected HTTP status, expected 206"@,
            Error::MissingContentRange => "No content-range header returned"@,
            Error::MalformedContentRange => "Failed to parse content length"@,
            Error::ByteCountMismatch { .. } => "Byte count mismatch"@,
            Error::MissingField(_) => "Malformed manifest"@,
            Error::InvalidChoice => "Invalid choice of network interface"@,
            Error::NoIpv4Address => "Failed to enumerate IPv4Address for choice"@,
            Error::InvalidField(_) => "Malformed manifest"@,
            Error::UnexpectedEvent => "Unexpected event"@,
            Error::MalformedContentKey => "Malformed content key"@,
            Error::InvalidDriveId => "Invalid drive id"@,
            Error::FileNotFound => "File not found"@,
            Error::RangeNotSatisfiable { .. } => "Range not satisfiable"@,
        }
    }

    /// A short description of the failure.
    pub fn message(&self) -> (text: &'static str)
        ensures
            text@ == self.spec_message(),
    {
        match self {
            Error::MdnsError => "MDNS Error",
            Error::TimeoutError => "Timeout Error",
            Error::MissingProperty(_) => "Malformed service record",
            Error::MissingAddress => "Malformed service record",
            Error::InvalidAddress => "Invalid address",
            Error::PathTooLong => "Path too long",
            Error::HttpError => "HTTP Error",
            Error::IoError => "IO Error",
            Error::UnexpectedStatus(_) => "Unexpected HTTP status, expected 206",
            Error::MissingContentRange => "No content-range header returned",
            Error::MalformedContentRange => "Failed to parse content length",
            Error::ByteCountMismatch { .. } => "Byte count mismatch",
            Error::MissingField(_) => "Malformed manifest",
            Error::InvalidChoice => "Invalid choice of network interface",
            Error::NoIpv4Address => "Failed to enumerate IPv4Address for choice",
            Error::InvalidField(_) => "Malformed manifest",
            Error::UnexpectedEvent => "Unexpected event",
            Error::MalformedContentKey => "Malformed content key",
            Error::InvalidDriveId => "Invalid drive id",
            Error::FileNotFound => "File not found",
            Error::RangeNotSatisfiable { .. } => "Range not satisfiable",
        }
    }
}

} // verus!
