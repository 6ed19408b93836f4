use vstd::prelude::*;

verus! {

/// Every way a signup or a login can fail.
#[derive(Debug, Clone, Copy, PartialEq, Eq, Structural)]
pub enum AuthError {
    /// An identity with the requested name already exists.
    NameTaken,
    /// No identity has the presented name. It is kept apart from
    /// `InvalidCredentials` on purpose: a client learns whether a name is
    /// registered, which signup reveals through `NameTaken` in any case.
    UnknownUser,
    /// The presented password does not match the stored secret.
    InvalidCredentials,
    /// The presented credential could not be read as a name and a password.
    MalformedCredentials,
    /// The password could not be hashed.
    HashingError,
    /// The identity or secret records could not be written.
    StorageError,
}

/// Status code of the request layer's response for each failure: client
/// errors for the outcomes a user can trigger, server errors for faults.
pub open spec fn status_of(e: AuthError) -> u16 {
    match e {
        AuthError::NameTaken => 400,
        AuthError::UnknownUser => 400,
        AuthError::InvalidCredentials => 403,
        AuthError::MalformedCredentials => 400,
        AuthError::HashingError => 500,
        AuthError::StorageError => 500,
    }
}

impl AuthError {
    /// The HTTP status code that reports this failure to a client.
    pub fn status_code(&self) -> (r: u16)
        ensures
            r == status_of(*self),
    {
        match self {
            AuthError::NameTaken => 400,
            AuthError::UnknownUser => 400,
            AuthError::InvalidCredentials => 403,
            AuthError::MalformedCredentials => 400,
            AuthError::HashingError => 500,
            AuthError::StorageError => 500,
        }
    }

    /// Whether this failure is an operational fault rather than an outcome
    /// a user can trigger.
    pub fn is_internal(&self) -> (r: bool)
        ensures
            r == (*self == AuthError::HashingError || *self == AuthError::StorageError),
    {
        matches!(self, AuthError::HashingError | AuthError::StorageError)
    }
}

} // verus!
