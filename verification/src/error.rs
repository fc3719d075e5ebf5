use vstd::prelude::*;

verus! {

/// Why a request was aborted. Any of these ends the whole request:
/// no report is produced for a request that failed.
#[derive(Clone, Copy, Debug, PartialEq, Eq, Structural)]
pub enum IngestError {
    /// A multipart part carried no filename.
    InvalidPart,
    /// The decoder made no picture of the received bytes, or one that no
    /// thumbnail can be made of.
    ImageDecode,
    /// Creating, writing or measuring a file failed.
    Io,
    /// The outbound request for a remote image failed.
    Fetch,
}

} // verus!
