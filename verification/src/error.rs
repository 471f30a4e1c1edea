//! Error taxonomy of the handler: failures that stop playback are separated
//! from failures that only affect remote telemetry.
use vstd::prelude::*;

verus! {

/// Why a handler URL could not be decoded. Fatal: the session aborts.
#[derive(Clone, Copy, Debug, PartialEq, Eq, Structural)]
pub enum DecodeError {
    /// The handler URL does not begin with the scheme prefix.
    InvalidScheme,
    /// A payload segment is not a canonical encoding of any byte string.
    DecodeFailed,
    /// A decoded payload is not valid UTF-8 text.
    EncodingFailed,
}

/// A connection parameter that a media URL must supply.
#[derive(Clone, Copy, Debug, PartialEq, Eq, Structural)]
pub enum Field {
    Host,
    ItemId,
    ApiKey,
    MediaSourceId,
}

/// Why session parameters could not be extracted from a media URL.
/// Fatal: the session cannot proceed without identity material.
#[derive(Clone, Copy, Debug, PartialEq, Eq, Structural)]
pub enum ExtractError {
    /// The named parameter is absent or empty.
    MissingField(Field),
}

/// Why a remote call failed. Fatal for identity and resume-position
/// resolution; reporting calls swallow it.
#[derive(Clone, Copy, Debug, PartialEq, Eq, Structural)]
pub enum ApiError {
    /// The server answered outside the success range.
    BadStatus(u16),
    /// The request never completed.
    Transport,
}

/// Why the player process could not be started. Fatal: the session aborts.
#[derive(Clone, Copy, Debug, PartialEq, Eq, Structural)]
pub enum SpawnError {
    LaunchFailed,
}

/// Why one position poll failed. Never fatal: the loop continues with the
/// last known position.
#[derive(Clone, Copy, Debug, PartialEq, Eq, Structural)]
pub enum PollError {
    /// The player's control channel could not be opened or read.
    ChannelUnavailable,
    /// The player answered with something that is not a position.
    MalformedResponse,
}

/// Any failure of the handler.
#[derive(Clone, Copy, Debug, PartialEq, Eq, Structural)]
pub enum Error {
    Decode(DecodeError),
    Extract(ExtractError),
    Api(ApiError),
    Spawn(SpawnError),
    Poll(PollError),
}

impl From<DecodeError> for Error {
    fn from(e: DecodeError) -> (r: Error)
        ensures
            r == Error::Decode(e),
    {
        Error::Decode(e)
    }
}

impl vstd::std_specs::convert::FromSpecImpl<DecodeError> for Error {
    open spec fn obeys_from_spec() -> bool {
        true
    }

    open spec fn from_spec(e: DecodeError) -> Self {
        Error::Decode(e)
    }
}

impl From<ExtractError> for Error {
    fn from(e: ExtractError) -> (r: Error)
        ensures
            r == Error::Extract(e),
    {
        Error::Extract(e)
    }
}

impl vstd::std_specs::convert::FromSpecImpl<ExtractError> for Error {
    open spec fn obeys_from_spec() -> bool {
        true
    }

    open spec fn from_spec(e: ExtractError) -> Self {
        Error::Extract(e)
    }
}

impl From<ApiError> for Error {
    fn from(e: ApiError) -> (r: Error)
        ensures
            r == Error::Api(e),
    {
        Error::Api(e)
    }
}

impl vstd::std_specs::convert::FromSpecImpl<ApiError> for Error {
    open spec fn obeys_from_spec() -> bool {
        true
    }

    open spec fn from_spec(e: ApiError) -> Self {
        Error::Api(e)
    }
}

} // verus!
