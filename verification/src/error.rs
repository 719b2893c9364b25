//! The errors of the proof service.

use vstd::prelude::*;

verus! {

/// What can go wrong between a request for an inclusion proof and its answer.
#[derive(Debug)]
pub enum InclusionServiceError {
    /// The node returned a blob without the offset of its first share.
    MissingBlobIndex,
    /// The digest of the blob did not fit 32 bytes.
    KeccakHashConversion,
    /// The roots of the header do not give its data hash, or the range proof
    /// over them does not verify.
    RowRootVerificationFailed,
    /// The blob could not be cut into shares; the text says why.
    ShareConversionError(String),
    /// Any other failure, with its cause.
    GeneralError(String),
    /// The node could not be reached or refused the call.
    RpcError(String),
    /// The prover rejected the job or failed on it.
    ProverError(String),
    /// The caller sent a malformed commitment, namespace or height.
    InvalidArgument(String),
}

/// The class of an error as the service reports it to its callers.
#[derive(Clone, Copy, Debug, PartialEq, Eq, Structural)]
pub enum StatusCode {
    /// The request itself was malformed.
    InvalidArgument,
    /// Anything that went wrong while serving a well-formed request.
    Internal,
}

impl InclusionServiceError {
    /// The text of the error. The errors of the node, of the prover and of
    /// the caller's arguments are their cause, as it reached the service.
    pub open spec fn message_text(&self) -> Seq<char> {
        match self {
            InclusionServiceError::MissingBlobIndex => "Blob index not found"@,
            InclusionServiceError::KeccakHashConversion => "Failed to convert keccak hash to array"@,
            InclusionServiceError::RowRootVerificationFailed => "Failed to verify row root inclusion multiproof"@,
            InclusionServiceError::ShareConversionError(cause) => "Failed to convert shares to blob: "@
                + cause@,
            InclusionServiceError::GeneralError(cause) => "Failed to create inclusion proof input: "@
                + cause@,
            InclusionServiceError::RpcError(cause) => cause@,
            InclusionServiceError::ProverError(cause) => cause@,
            InclusionServiceError::InvalidArgument(cause) => cause@,
        }
    }

    /// The class under which the service reports the error: a malformed
    /// request as such, everything else as internal.
    pub open spec fn status_code_of(&self) -> StatusCode {
        match self {
            InclusionServiceError::InvalidArgument(_) => StatusCode::InvalidArgument,
            _ => StatusCode::Internal,
        }
    }

    /// The text of the error, as shown to a caller.
    pub fn message(&self) -> (text: String)
        ensures
            text@ == self.message_text(),
    {
        match self {
            InclusionServiceError::MissingBlobIndex => String::from_str("Blob index not found"),
            InclusionServiceError::KeccakHashConversion => String::from_str(
                "Failed to convert keccak hash to array",
            ),
            InclusionServiceError::RowRootVerificationFailed => String::from_str(
                "Failed to verify row root inclusion multiproof",
            ),
            InclusionServiceError::ShareConversionError(cause) => String::from_str(
                "Failed to convert shares to blob: ",
            ).concat(cause.as_str()),
            InclusionServiceError::GeneralError(cause) => String::from_str(
                "Failed to create inclusion proof input: ",
            ).concat(cause.as_str()),
            InclusionServiceError::RpcError(cause) => cause.clone(),
            InclusionServiceError::ProverError(cause) => cause.clone(),
            InclusionServiceError::InvalidArgument(cause) => cause.clone(),
        }
    }

    /// The class under which the service reports the error.
    pub fn status_code(&self) -> (code: StatusCode)
        ensures
            code == self.status_code_of(),
    {
        match self {
            InclusionServiceError::InvalidArgument(_) => StatusCode::InvalidArgument,
            _ => StatusCode::Internal,
        }
    }
}

} // verus!
