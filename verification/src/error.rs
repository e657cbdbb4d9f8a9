//! The errors of every codec layer.

use crate::sbe::zb_protocol::CodecErr;
use crate::sbe::zb_protocol::MessageHeader;
use vstd::prelude::*;
use vstd::std_specs::convert::FromSpecImpl;
use vstd::string::StringExecFns;

verus! {

/// What went wrong while encoding or decoding.
#[derive(Debug, PartialEq, Eq)]
pub enum Error {
    /// A map payload could not be decoded; the text says why.
    DecodeError(String),
    /// A map payload could not be encoded; the text says why.
    EncodeError(String),
    /// A buffer was too short, or a slice too long for its length prefix.
    SbeError(SbeError),
    /// An integer on the wire names no variant of the enumeration.
    UnknownEnum(EnumKind, u64),
    /// The message header is not the one of the expected template; the
    /// header that was read is enclosed.
    UnsupportedMessage(MessageHeader),
    /// A string field does not hold valid UTF-8.
    InvalidUtf8,
    /// A state name is not in the vocabulary of its event kind.
    UnknownState(String),
}

/// The two ways in which bytes and a layout can disagree.
#[derive(Debug, PartialEq, Eq, Clone, Copy, Structural)]
pub enum SbeError {
    NotEnoughBytes,
    SliceIsLongerThanAllowedBySchema,
}

/// The enumerations that travel as integers.
#[derive(Debug, PartialEq, Eq, Clone, Copy, Structural)]
pub enum EnumKind {
    DataFrameType,
    TransportProtocol,
    ControlFrameBody,
    SubscriptionType,
    EventType,
    ControlMessageType,
    ErrorCode,
}

impl SbeError {
    pub open spec fn spec_as_str(&self) -> Seq<char> {
        match *self {
            SbeError::NotEnoughBytes => "not enough bytes"@,
            SbeError::SliceIsLongerThanAllowedBySchema => "slice is longer then allowed by schema"@,
        }
    }

    pub fn as_str(&self) -> (s: &'static str)
        ensures
            s@ == self.spec_as_str(),
    {
        match *self {
            SbeError::NotEnoughBytes => "not enough bytes",
            SbeError::SliceIsLongerThanAllowedBySchema => "slice is longer then allowed by schema",
        }
    }
}

impl Error {
    /// The shorthand for the most common error.
    pub open spec fn not_enough_bytes() -> Error {
        Error::SbeError(SbeError::NotEnoughBytes)
    }

    /// The shorthand for an over-long slice.
    pub open spec fn slice_too_long() -> Error {
        Error::SbeError(SbeError::SliceIsLongerThanAllowedBySchema)
    }

    /// The error that stands for an error of the staged coders.
    pub open spec fn of_codec_err(error: CodecErr) -> Error {
        match error {
            CodecErr::NotEnoughBytes => Error::SbeError(SbeError::NotEnoughBytes),
            CodecErr::SliceIsLongerThanAllowedBySchema => Error::SbeError(
                SbeError::SliceIsLongerThanAllowedBySchema,
            ),
            CodecErr::UnknownEnum(kind, value) => Error::UnknownEnum(kind, value),
        }
    }

    pub open spec fn spec_description(&self) -> Seq<char> {
        match *self {
            Error::DecodeError(text) => text@,
            Error::EncodeError(text) => text@,
            Error::SbeError(error) => error.spec_as_str(),
            Error::UnknownEnum(_, _) => "unknown enum value"@,
            Error::UnsupportedMessage(_) => "unsupported message"@,
            Error::InvalidUtf8 => "invalid utf-8"@,
            Error::UnknownState(state) => state@,
        }
    }

    /// A short text for the error: the enclosed text where there is one, a
    /// fixed phrase otherwise.
    pub fn description(&self) -> (text: String)
        ensures
            text@ == self.spec_description(),
    {
        match self {
            Error::DecodeError(text) => text.clone(),
            Error::EncodeError(text) => text.clone(),
            Error::SbeError(error) => String::from_str(error.as_str()),
            Error::UnknownEnum(_, _) => String::from_str("unknown enum value"),
            Error::UnsupportedMessage(_) => String::from_str("unsupported message"),
            Error::InvalidUtf8 => String::from_str("invalid utf-8"),
            Error::UnknownState(state) => state.clone(),
        }
    }
}

impl From<CodecErr> for Error {
    fn from(error: CodecErr) -> (r: Error) {
        match error {
            CodecErr::NotEnoughBytes => Error::SbeError(SbeError::NotEnoughBytes),
            CodecErr::SliceIsLongerThanAllowedBySchema => Error::SbeError(
                SbeError::SliceIsLongerThanAllowedBySchema,
            ),
            CodecErr::UnknownEnum(kind, value) => Error::UnknownEnum(kind, value),
        }
    }
}

impl FromSpecImpl<CodecErr> for Error {
    open spec fn obeys_from_spec() -> bool {
        true
    }

    open spec fn from_spec(error: CodecErr) -> Error {
        Error::of_codec_err(error)
    }
}

/// Why something could not be decoded, as far as the error is fixed.
pub enum Failure {
    /// The bytes are not of the expected form. The error is a `DecodeError`;
    /// its text is not fixed.
    Malformed,
    /// A state name is not in the vocabulary of its event kind. The error
    /// is an `UnknownState` with that name.
    UnknownState(Seq<char>),
    /// The error is exactly this one.
    Exact(Error),
}

impl Failure {
    /// Whether `error` is an error that reports this failure.
    pub open spec fn reported_by(&self, error: Error) -> bool {
        match *self {
            Failure::Malformed => error is DecodeError,
            Failure::UnknownState(name) => error matches Error::UnknownState(text) && text@
                == name,
            Failure::Exact(exact) => error == exact,
        }
    }
}

} // verus!
