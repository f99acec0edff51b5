//! Error kinds shared by the conversions of the library.
use vstd::prelude::*;

verus! {

/// Enum describing the locations where a result value can be missing.
#[derive(Debug, Clone, Copy, PartialEq, Eq, Structural)]
pub enum ResultStatusKind {
    /// Missing from WriteEventsCompleted
    WriteEvents,
    /// Missing from ReadEventCompleted
    ReadEvent,
    /// Missing from ReadStreamEventsCompleted
    ReadStream,
}

impl ResultStatusKind {
    /// The name of the message field in which the result value is missing.
    pub fn as_str(&self) -> (s: &'static str)
        ensures
            *self == ResultStatusKind::WriteEvents ==> s@ == "WriteEventsCompleted::result"@,
            *self == ResultStatusKind::ReadEvent ==> s@ == "ReadEventCompleted::result"@,
            *self == ResultStatusKind::ReadStream ==> s@ == "ReadStreamEventsCompleted::result"@,
    {
        match self {
            ResultStatusKind::WriteEvents => "WriteEventsCompleted::result",
            ResultStatusKind::ReadEvent => "ReadEventCompleted::result",
            ResultStatusKind::ReadStream => "ReadStreamEventsCompleted::result",
        }
    }
}

/// The reasons for which a conversion of the library can fail.
#[derive(Debug, Clone, Copy, PartialEq, Eq, Structural)]
pub enum ErrorKind {
    /// Bytes were not valid UTF-8
    InvalidUtf8,
    /// The flags byte of a frame held unknown bits
    InvalidFlags(u8),
    /// A required result field was missing
    MissingResultField(ResultStatusKind),
    /// A value out of the range of `StreamVersion`
    InvalidStreamVersion(i32),
    /// A value out of the range of `EventNumber`
    InvalidEventNumber(i32),
    /// A negative log position other than -1
    UnderflowLogPosition(i64),
    /// A log position above `i64::MAX`
    OverflowLogPosition(u64),
    /// A discriminator the library does not convert
    UnsupportedDiscriminator(u8),
    /// A conversion that is not implemented
    UnimplementedConversion,
    /// A write answered with an invalid transaction
    WriteEventsInvalidTransaction,
}

/// The reasons for which reading or writing a frame fails.
#[derive(Debug, Clone, Copy, PartialEq, Eq, Structural)]
pub enum CodecError {
    /// The length prefix is below the size of the fixed header
    LengthTooSmall(u32),
    /// The flags byte held bits other than the authentication flag
    InvalidFlags(u8),
    /// The credentials of the frame are cut short or not UTF-8
    InvalidCredentials,
    /// The payload of the message with this discriminator could not be decoded
    InvalidMessage(u8),
    /// The frame would not fit the 32-bit length prefix
    FrameTooLarge,
    /// A login or password longer than 255 bytes
    CredentialsTooLong,
}

} // verus!
