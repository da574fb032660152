use vstd::prelude::*;

verus! {

/// The closed set of failures a request can meet on its way through authorization
/// or while preparing a downstream hop.
#[derive(Debug, Clone, PartialEq, Eq)]
pub enum AuthError {
    /// The named operation is absent, or the document declares none.
    OperationNotFound,
    /// An authorization header is present but is not a bearer credential.
    MalformedHeader,
    /// The bearer credential could not be decoded or its signatures checked.
    TokenInvalid(String),
    /// The policy did not allow the request; the engine's stated reason.
    AuthorizationDenied(String),
    /// The accepted credential could not be narrowed for a downstream service.
    AttenuationError(String),
    /// The configured root public key is not a valid hex-encoded key.
    InvalidRootKey(String),
}

pub open spec fn operation_not_found_message() -> Seq<char> {
    seq!['c', 'a', 'n', 'n', 'o', 't', ' ', 'f', 'i', 'n', 'd', ' ', 'o', 'p', 'e', 'r', 'a', 't', 'i', 'o', 'n']
}

pub open spec fn malformed_header_message() -> Seq<char> {
    seq!['n', 'o', 't', ' ', 'a', ' ', 'b', 'e', 'a', 'r', 'e', 'r', ' ', 't', 'o', 'k', 'e', 'n']
}

impl AuthError {
    /// The text shown to the caller in the error envelope: a fixed sentence
    /// for the structural failures, the engine's words for the others.
    pub open spec fn message_spec(&self) -> Seq<char> {
        match self {
            AuthError::OperationNotFound => operation_not_found_message(),
            AuthError::MalformedHeader => malformed_header_message(),
            AuthError::TokenInvalid(m) => m@,
            AuthError::AuthorizationDenied(m) => m@,
            AuthError::AttenuationError(m) => m@,
            AuthError::InvalidRootKey(m) => m@,
        }
    }

    pub fn message(&self) -> (r: String)
        ensures
            r@ == self.message_spec(),
    {
        match self {
            AuthError::OperationNotFound => {
                proof { reveal_strlit("cannot find operation"); }
                String::from_str("cannot find operation")
            },
            AuthError::MalformedHeader => {
                proof { reveal_strlit("not a bearer token"); }
                String::from_str("not a bearer token")
            },
            AuthError::TokenInvalid(m) => m.clone(),
            AuthError::AuthorizationDenied(m) => m.clone(),
            AuthError::AttenuationError(m) => m.clone(),
            AuthError::InvalidRootKey(m) => m.clone(),
        }
    }
}

} // verus!
