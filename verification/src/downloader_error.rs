use vstd::prelude::*;

verus! {

/// Why a download request failed.
#[derive(Debug, Clone, Copy, PartialEq, Eq, Structural)]
pub enum DownloaderError {
    /// The input is not a well-formed address for any platform.
    InvalidInputError,
    /// The input is an address, but of no platform that is known.
    UnsupportedPlatformError,
    /// A manifest, discovery or segment transfer failed or came back empty.
    FetchError,
    /// The variant manifest holds fewer tracks than one tier needs.
    NoMasterPlaylistError,
    /// A temporary track file could not be written or removed.
    IOError,
    /// The muxer could not be started or reported failure.
    MuxError,
}

/// What a failure is called in a report.
pub open spec fn message_of(kind: DownloaderError) -> Seq<char> {
    match kind {
        DownloaderError::InvalidInputError => "invalid input"@,
        DownloaderError::UnsupportedPlatformError => "unsupported platform"@,
        DownloaderError::FetchError => "fetch failed"@,
        DownloaderError::NoMasterPlaylistError => "no master playlist"@,
        DownloaderError::IOError => "temporary file could not be written or removed"@,
        DownloaderError::MuxError => "muxer failed"@,
    }
}

impl DownloaderError {
    /// What this failure is called in a report.
    pub fn message(&self) -> (text: String)
        ensures
            text@ == message_of(*self),
    {
        match self {
            DownloaderError::InvalidInputError => "invalid input".to_owned(),
            DownloaderError::UnsupportedPlatformError => "unsupported platform".to_owned(),
            DownloaderError::FetchError => "fetch failed".to_owned(),
            DownloaderError::NoMasterPlaylistError => "no master playlist".to_owned(),
            DownloaderError::IOError => "temporary file could not be written or removed".to_owned(),
            DownloaderError::MuxError => "muxer failed".to_owned(),
        }
    }
}

} // verus!
