//! The failures that the registry reports to its callers.

use vstd::prelude::*;
use vstd::string::*;

verus! {

/// Why a publish or fetch operation did not succeed.
#[derive(Clone, Copy, Debug, PartialEq, Eq, Structural)]
pub enum RegistryError {
    /// The package name has fewer than four characters.
    InvalidName,
    /// The publish body or its metadata cannot be decoded. `offset` is the
    /// position in the body of the first byte of the part that is at fault.
    MalformedPayload { offset: usize },
    /// The object is already in the store and may not be written again.
    AlreadyExists,
    /// The store holds no object at the path.
    NotFound,
    /// The conflict token handed to a conditional update is stale.
    Conflict,
    /// The store could not be reached or answered out of protocol.
    TransportError,
}

impl RegistryError {
    /// The HTTP status that stands for this error: 400 for a bad request,
    /// 409 for a conflict with what is stored, 404 for a missing object and
    /// 500 for a failure of the store.
    pub open spec fn spec_status_code(self) -> u16 {
        match self {
            RegistryError::InvalidName => 400,
            RegistryError::MalformedPayload { .. } => 400,
            RegistryError::AlreadyExists => 409,
            RegistryError::Conflict => 409,
            RegistryError::NotFound => 404,
            RegistryError::TransportError => 500,
        }
    }

    /// Computes [`RegistryError::spec_status_code`].
    #[verifier::when_used_as_spec(spec_status_code)]
    pub fn status_code(self) -> (code: u16)
        ensures
            code == self.spec_status_code(),
    {
        match self {
            RegistryError::InvalidName => 400,
            RegistryError::MalformedPayload { .. } => 400,
            RegistryError::AlreadyExists => 409,
            RegistryError::Conflict => 409,
            RegistryError::NotFound => 404,
            RegistryError::TransportError => 500,
        }
    }

    /// Whether the caller may repeat the operation unchanged and hope for
    /// success: only a lost race on the ledger is of that kind.
    pub fn is_retryable(self) -> (retry: bool)
        ensures
            retry == (self == RegistryError::Conflict),
    {
        match self {
            RegistryError::Conflict => true,
            _ => false,
        }
    }

    /// The text that tells a client what went wrong.
    pub open spec fn spec_message(self) -> Seq<char> {
        match self {
            RegistryError::InvalidName => "Name too short"@,
            RegistryError::MalformedPayload { .. } => "Malformed payload"@,
            RegistryError::AlreadyExists => "Already existed"@,
            RegistryError::NotFound => "Not found"@,
            RegistryError::Conflict => "Conflict"@,
            RegistryError::TransportError => "Transport error"@,
        }
    }

    /// Computes [`RegistryError::spec_message`].
    pub fn message(self) -> (text: String)
        ensures
            text@ == self.spec_message(),
    {
        match self {
            RegistryError::InvalidName => String::from_str("Name too short"),
            RegistryError::MalformedPayload { .. } => String::from_str("Malformed payload"),
            RegistryError::AlreadyExists => String::from_str("Already existed"),
            RegistryError::NotFound => String::from_str("Not found"),
            RegistryError::Conflict => String::from_str("Conflict"),
            RegistryError::TransportError => String::from_str("Transport error"),
        }
    }
}

} // verus!
