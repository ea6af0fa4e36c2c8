//! Error taxonomy of the download engine, and the texts shown for the
//! faults the HTTP client reports.

use vstd::prelude::*;
use crate::text::decimal_chars;
use crate::text::u64_to_decimal;

verus! {

/// Why a single chunk fetch failed. A failure aborts only its own chunk;
/// surfacing it for the whole task is the coordinator's business.
#[derive(Debug, Clone, Copy, PartialEq, Eq, Structural)]
pub enum FetchError {
    /// Connection or timeout fault while talking to the server.
    Network,
    /// The server answered with a non-success HTTP status.
    Http(u16),
    /// A local read or buffer fault while draining the body.
    Io,
    /// The server ignored the `Range` header and sent a body of the
    /// wrong length, or answered a range request with a full-body status.
    RangeNotHonored,
}

/// Why a whole download run failed.
#[derive(Debug, Clone, Copy, PartialEq, Eq, Structural)]
pub enum DownloadError {
    /// The planner produced no ranges for a non-empty resource.
    InvalidPlan,
    /// The chunk with this index was the first observed to fail.
    ChunkFailed { index: usize, cause: FetchError },
    /// The assembled output could not be written to disk.
    WriteFailed,
}

impl FetchError {
    /// Short description of the fault, for the caller's report.
    pub fn describe(&self) -> (m: String)
        ensures
            m@ == match *self {
                FetchError::Network => "network error"@,
                FetchError::Http(status) => "HTTP status "@ + decimal_chars(status as int),
                FetchError::Io => "local I/O error"@,
                FetchError::RangeNotHonored => "server did not honor the range request"@,
            },
    {
        match *self {
            FetchError::Network => String::from_str("network error"),
            FetchError::Http(status) => {
                let mut m = String::from_str("HTTP status ");
                let d = u64_to_decimal(status as u64);
                m.append(d.as_str());
                m
            },
            FetchError::Io => String::from_str("local I/O error"),
            FetchError::RangeNotHonored => String::from_str(
                "server did not honor the range request",
            ),
        }
    }
}

impl DownloadError {
    /// Short description of the fault, for the caller's report.
    pub fn describe(&self) -> (m: String)
        ensures
            m@ == match *self {
                DownloadError::InvalidPlan => "invalid range plan"@,
                DownloadError::ChunkFailed { index, cause } => "chunk "@ + decimal_chars(
                    index as int,
                ) + " failed: "@ + match cause {
                    FetchError::Network => "network error"@,
                    FetchError::Http(status) => "HTTP status "@ + decimal_chars(status as int),
                    FetchError::Io => "local I/O error"@,
                    FetchError::RangeNotHonored => "server did not honor the range request"@,
                },
                DownloadError::WriteFailed => "failed to write the output file"@,
            },
    {
        match *self {
            DownloadError::InvalidPlan => String::from_str("invalid range plan"),
            DownloadError::ChunkFailed { index, cause } => {
                let mut m = String::from_str("chunk ");
                let d = u64_to_decimal(index as u64);
                m.append(d.as_str());
                m.append(" failed: ");
                let c = cause.describe();
                m.append(c.as_str());
                proof {
                    assert(m@ =~= "chunk "@ + decimal_chars(index as int) + " failed: "@ + c@);
                }
                m
            },
            DownloadError::WriteFailed => String::from_str("failed to write the output file"),
        }
    }
}

/// What the HTTP client reported for a whole-request fault, reduced to
/// the facts the error text depends on.
#[derive(Debug, Clone)]
pub enum HttpFailure {
    /// The request timed out.
    Timeout,
    /// The connection could not be established.
    Connect,
    /// The server answered with this error status.
    Status(u16),
    /// Anything else, carrying the client's own description of it.
    Other(String),
}

/// The message shown to the user for a whole-request fault.
pub fn get_error_message(e: &HttpFailure) -> (m: String)
    ensures
        m@ == match *e {
            HttpFailure::Timeout
                => "Connection timed out. Please check your network connection or try again later."@,
            HttpFailure::Connect => "Failed to connect to GitHub. Please check your network connection."@,
            HttpFailure::Status(status) => "GitHub returned an error: "@ + decimal_chars(
                status as int,
            ),
            HttpFailure::Other(ref detail) => "An error occurred: "@ + detail@,
        },
{
    match e {
        HttpFailure::Timeout => String::from_str(
            "Connection timed out. Please check your network connection or try again later.",
        ),
        HttpFailure::Connect => String::from_str(
            "Failed to connect to GitHub. Please check your network connection.",
        ),
        HttpFailure::Status(status) => {
            let mut m = String::from_str("GitHub returned an error: ");
            let d = u64_to_decimal(*status as u64);
            m.append(d.as_str());
            m
        },
        HttpFailure::Other(detail) => {
            let mut m = String::from_str("An error occurred: ");
            m.append(detail.as_str());
            m
        },
    }
}

} // verus!
