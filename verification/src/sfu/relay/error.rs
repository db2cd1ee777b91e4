use vstd::prelude::*;

verus! {

/// Why the CMAF splitter rejected its input.
#[derive(Debug, Clone, Copy, PartialEq, Eq, Structural)]
pub enum CmafSplitError {
    /// A `moov` box completed the init segment before any `ftyp` box was seen.
    MoovBeforeFtyp,
    /// A `moof` box arrived while the init segment was still incomplete.
    InitIncompleteBeforeMoof { seen_ftyp: bool, seen_moov: bool },
    /// A 64-bit box size does not fit in `usize` on this machine.
    SizeConversion { size: u64 },
    /// An extended (64-bit) box size is below the 16 bytes of its own header.
    InvalidExtendedSize { size: u64 },
    /// A box declares size 0 ("to the end of the file"), which a stream cannot honour.
    ZeroSize,
    /// A 32-bit box size is below the 8 bytes of its own header.
    InvalidSize { declared: u32 },
}

/// Errors of the relay pipeline.
#[derive(Debug)]
pub enum RelayError {
    PortAllocationError,
    MediaStreamAlreadyStarted,
    MediaStreamNotStarted,
    WorkerMailboxError(String),
    NoInputTrack(String),
    PublisherError(String),
    StartProcessFailed(String),
    Unauthorized(String),
    CmafSplit(CmafSplitError),
    CmafPreparation(String),
    CmafWrite(String),
    CmafPublisher(String),
    RtpForwarder(String),
}

} // verus!
