//! Error types of the pipeline.
use vstd::prelude::*;

verus! {

#[verifier::external_type_specification]
#[verifier::external_body]
pub struct ExIoError(std::io::Error);

#[verifier::external_type_specification]
#[verifier::external_body]
pub struct ExParseIntError(std::num::ParseIntError);

#[verifier::external_type_specification]
#[verifier::external_body]
pub struct ExParseFloatError(std::num::ParseFloatError);

/// Why encoding a batch failed.
#[derive(Debug)]
pub enum CodecEncodeError {
    /// A record's own serialization failed.
    Io(std::io::Error),
    /// A record's field count differs from the one seen before, and the
    /// encoder is not flexible.
    UnequalLengths { expected: usize, got: usize },
    /// Two roles of the format were given the same byte.
    InvalidFormat,
}

/// Error of the codec layer.
#[derive(Debug)]
pub enum CodecError {
    Encode(CodecEncodeError),
}

/// Error of a sink pipeline.
#[derive(Debug)]
pub enum SendError {
    /// Opening, writing, flushing, renaming or creating a directory failed.
    IO(std::io::Error),
    /// The batch could not be encoded.
    Encode(CodecEncodeError),
    /// The background task could not be joined (it panicked or was
    /// cancelled).
    TaskFailed,
}

/// Error of a metric source.
#[derive(Debug)]
pub enum MetricError {
    IOError(std::io::Error),
    ParseFloatError(std::num::ParseFloatError),
    ParseIntError(std::num::ParseIntError),
    /// A key (first) was missing from a file (second).
    ParseKeyError(String, String),
    /// The collectors could not be set up.
    Init,
    /// Collected metrics could not be handed on.
    Send,
}

/// Error of the agent as a whole.
#[derive(Debug)]
pub enum AgentError {
    MetricError(MetricError),
    SendError(SendError),
}

impl From<CodecEncodeError> for SendError {
    fn from(e: CodecEncodeError) -> (r: SendError)
        ensures
            r == SendError::Encode(e),
    {
        SendError::Encode(e)
    }
}

impl vstd::std_specs::convert::FromSpecImpl<CodecEncodeError> for SendError {
    open spec fn obeys_from_spec() -> bool {
        true
    }

    open spec fn from_spec(e: CodecEncodeError) -> SendError {
        SendError::Encode(e)
    }
}

impl From<CodecEncodeError> for CodecError {
    fn from(e: CodecEncodeError) -> (r: CodecError)
        ensures
            r == CodecError::Encode(e),
    {
        CodecError::Encode(e)
    }
}

impl vstd::std_specs::convert::FromSpecImpl<CodecEncodeError> for CodecError {
    open spec fn obeys_from_spec() -> bool {
        true
    }

    open spec fn from_spec(e: CodecEncodeError) -> CodecError {
        CodecError::Encode(e)
    }
}

} // verus!
