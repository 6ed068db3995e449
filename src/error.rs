//! The kinds of failure of a download and of the control protocol.
use vstd::prelude::*;

verus! {

/// Why a download, a chunk or a request failed.
#[derive(Debug, Clone, Copy, PartialEq, Eq, Structural)]
pub enum DownloadError {
    /// The remote host or the daemon could not be reached.
    Connect,
    /// The server answered with a status outside `200..=299`.
    HttpStatus(u16),
    /// The size probe carried no `Content-Length`.
    MissingHeader,
    /// The `Content-Length` was not a decimal number that fits in 64 bits.
    InvalidHeader,
    /// The server sent the whole resource where a range starting past byte 0
    /// was asked for.
    RangeIgnored,
    /// The body of a ranged response ended before the range was filled.
    IncompleteBody { expected: u64, received: u64 },
    /// Opening, sizing or writing the output file failed.
    Io,
    /// A request or response was not well-formed.
    Protocol,
    /// The shared secret did not match.
    Auth,
    /// The sidecar could not be parsed.
    StateCorrupt,
}

} // verus!
