use vstd::prelude::*;

use crate::bytes::{append_bytes, decimal_bytes, decimal_of};

verus! {

/// Why a transfer task failed.
#[derive(Clone, Debug, PartialEq, Eq)]
pub enum HttpError {
    /// The URL could not be parsed.
    UrlInvalid,
    /// The host did not resolve, or no resolved address accepted a connection.
    DnsOrConnectFailure,
    /// No TLS session could be set up for the host's name.
    TlsSetupFailure,
    /// The transport took fewer bytes of the request head than it was given.
    ShortWrite,
    /// The status line or a header line of the response did not split.
    MalformedResponseHead,
    /// The server answered with a status other than 200: its code and reason.
    UnexpectedStatus(u16, Vec<u8>),
    /// The response's `Content-Length` is not a decimal number.
    ContentLengthUnparsable,
    /// The transport failed for a reason other than having no data yet.
    ConnectionClosedUnexpectedly,
    /// A setting the task needs (method, port, URL, buffer size) is absent.
    MissingRequiredSetting,
    /// The host's check of the element's settings failed: its report.
    InvalidElementData(Vec<u8>),
    /// The host's check of the module's settings failed: its report.
    InvalidModuleData(Vec<u8>),
}

} // verus!

verus! {

/// `Http Error: status: `
pub open spec fn status_prefix() -> Seq<u8> {
    seq![72u8, 116, 116, 112, 32, 69, 114, 114, 111, 114, 58, 32, 115, 116, 97, 116, 117, 115, 58, 32]
}

/// `Error: element data: `
pub open spec fn element_data_prefix() -> Seq<u8> {
    seq![69u8, 114, 114, 111, 114, 58, 32, 101, 108, 101, 109, 101, 110, 116, 32, 100, 97, 116, 97, 58, 32]
}

/// `Error: module data: `
pub open spec fn module_data_prefix() -> Seq<u8> {
    seq![69u8, 114, 114, 111, 114, 58, 32, 109, 111, 100, 117, 108, 101, 32, 100, 97, 116, 97, 58, 32]
}

/// The text recorded for a failed task.
pub open spec fn error_text(e: HttpError) -> Seq<u8> {
    match e {
        // Error: cannot parse url
        HttpError::UrlInvalid => seq![69u8, 114, 114, 111, 114, 58, 32, 99, 97, 110, 110, 111, 116, 32, 112, 97, 114, 115, 101, 32, 117, 114, 108],
        // Error: cannot resolve host or connect to it
        HttpError::DnsOrConnectFailure => seq![69u8, 114, 114, 111, 114, 58, 32, 99, 97, 110, 110, 111, 116, 32, 114, 101, 115, 111, 108, 118, 101, 32, 104, 111, 115, 116, 32, 111, 114, 32, 99, 111, 110, 110, 101, 99, 116, 32, 116, 111, 32, 105, 116],
        // Error: invalid TLS server name
        HttpError::TlsSetupFailure => seq![69u8, 114, 114, 111, 114, 58, 32, 105, 110, 118, 97, 108, 105, 100, 32, 84, 76, 83, 32, 115, 101, 114, 118, 101, 114, 32, 110, 97, 109, 101],
        // Error: cannot write the request to the connection
        HttpError::ShortWrite => seq![69u8, 114, 114, 111, 114, 58, 32, 99, 97, 110, 110, 111, 116, 32, 119, 114, 105, 116, 101, 32, 116, 104, 101, 32, 114, 101, 113, 117, 101, 115, 116, 32, 116, 111, 32, 116, 104, 101, 32, 99, 111, 110, 110, 101, 99, 116, 105, 111, 110],
        // Error: malformed response head
        HttpError::MalformedResponseHead => seq![69u8, 114, 114, 111, 114, 58, 32, 109, 97, 108, 102, 111, 114, 109, 101, 100, 32, 114, 101, 115, 112, 111, 110, 115, 101, 32, 104, 101, 97, 100],
        // Error: cannot parse Content-Length
        HttpError::ContentLengthUnparsable => seq![69u8, 114, 114, 111, 114, 58, 32, 99, 97, 110, 110, 111, 116, 32, 112, 97, 114, 115, 101, 32, 67, 111, 110, 116, 101, 110, 116, 45, 76, 101, 110, 103, 116, 104],
        // Error: connection closed unexpectedly
        HttpError::ConnectionClosedUnexpectedly => seq![69u8, 114, 114, 111, 114, 58, 32, 99, 111, 110, 110, 101, 99, 116, 105, 111, 110, 32, 99, 108, 111, 115, 101, 100, 32, 117, 110, 101, 120, 112, 101, 99, 116, 101, 100, 108, 121],
        // Error: a required setting is missing
        HttpError::MissingRequiredSetting => seq![69u8, 114, 114, 111, 114, 58, 32, 97, 32, 114, 101, 113, 117, 105, 114, 101, 100, 32, 115, 101, 116, 116, 105, 110, 103, 32, 105, 115, 32, 109, 105, 115, 115, 105, 110, 103],
        HttpError::InvalidElementData(report) => element_data_prefix() + report@,
        HttpError::InvalidModuleData(report) => module_data_prefix() + report@,
        HttpError::UnexpectedStatus(code, reason) => status_prefix() + decimal_of(code as nat)
            + seq![32u8] + reason@,
    }
}

impl HttpError {
    /// The text recorded for a task that failed with this error.
    pub fn message(&self) -> (r: Vec<u8>)
        ensures
            r@ == error_text(*self),
    {
        match self {
            HttpError::UrlInvalid => vec![69u8, 114, 114, 111, 114, 58, 32, 99, 97, 110, 110, 111, 116, 32, 112, 97, 114, 115, 101, 32, 117, 114, 108],
            HttpError::DnsOrConnectFailure => vec![69u8, 114, 114, 111, 114, 58, 32, 99, 97, 110, 110, 111, 116, 32, 114, 101, 115, 111, 108, 118, 101, 32, 104, 111, 115, 116, 32, 111, 114, 32, 99, 111, 110, 110, 101, 99, 116, 32, 116, 111, 32, 105, 116],
            HttpError::TlsSetupFailure => vec![69u8, 114, 114, 111, 114, 58, 32, 105, 110, 118, 97, 108, 105, 100, 32, 84, 76, 83, 32, 115, 101, 114, 118, 101, 114, 32, 110, 97, 109, 101],
            HttpError::ShortWrite => vec![69u8, 114, 114, 111, 114, 58, 32, 99, 97, 110, 110, 111, 116, 32, 119, 114, 105, 116, 101, 32, 116, 104, 101, 32, 114, 101, 113, 117, 101, 115, 116, 32, 116, 111, 32, 116, 104, 101, 32, 99, 111, 110, 110, 101, 99, 116, 105, 111, 110],
            HttpError::MalformedResponseHead => vec![69u8, 114, 114, 111, 114, 58, 32, 109, 97, 108, 102, 111, 114, 109, 101, 100, 32, 114, 101, 115, 112, 111, 110, 115, 101, 32, 104, 101, 97, 100],
            HttpError::ContentLengthUnparsable => vec![69u8, 114, 114, 111, 114, 58, 32, 99, 97, 110, 110, 111, 116, 32, 112, 97, 114, 115, 101, 32, 67, 111, 110, 116, 101, 110, 116, 45, 76, 101, 110, 103, 116, 104],
            HttpError::ConnectionClosedUnexpectedly => vec![69u8, 114, 114, 111, 114, 58, 32, 99, 111, 110, 110, 101, 99, 116, 105, 111, 110, 32, 99, 108, 111, 115, 101, 100, 32, 117, 110, 101, 120, 112, 101, 99, 116, 101, 100, 108, 121],
            HttpError::MissingRequiredSetting => vec![69u8, 114, 114, 111, 114, 58, 32, 97, 32, 114, 101, 113, 117, 105, 114, 101, 100, 32, 115, 101, 116, 116, 105, 110, 103, 32, 105, 115, 32, 109, 105, 115, 115, 105, 110, 103],
            HttpError::InvalidElementData(report) => {
                let mut r: Vec<u8> = vec![69u8, 114, 114, 111, 114, 58, 32, 101, 108, 101, 109, 101, 110, 116, 32, 100, 97, 116, 97, 58, 32];
                append_bytes(&mut r, report.as_slice());
                r
            },
            HttpError::InvalidModuleData(report) => {
                let mut r: Vec<u8> = vec![69u8, 114, 114, 111, 114, 58, 32, 109, 111, 100, 117, 108, 101, 32, 100, 97, 116, 97, 58, 32];
                append_bytes(&mut r, report.as_slice());
                r
            },
            HttpError::UnexpectedStatus(code, reason) => {
                let mut r: Vec<u8> = vec![72u8, 116, 116, 112, 32, 69, 114, 114, 111, 114, 58, 32, 115, 116, 97, 116, 117, 115, 58, 32];
                let d = decimal_bytes(*code as u64);
                append_bytes(&mut r, d.as_slice());
                r.push(32u8);
                append_bytes(&mut r, reason.as_slice());
                r
            },
        }
    }
}

} // verus!
