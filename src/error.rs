use vstd::prelude::*;

verus! {

/// The failure kinds of the idempotency core.
#[derive(Debug, Clone, Copy, PartialEq, Eq, Structural)]
pub enum IdempotencyError {
    /// The caller-supplied key is empty, too long, or holds a character
    /// outside the accepted set.
    InvalidKey,
    /// A stored status code lies outside the HTTP range 100..=599.
    InvalidStatusCode,
    /// A row for the same (caller, key) pair has already committed.
    DuplicateKey,
    /// A transaction that is still open has saved a row for the same
    /// (caller, key) pair; the save can be retried once it commits or rolls
    /// back, as an insert waits on a unique index.
    KeyInUse,
    /// The operation could not complete; nothing was committed and the
    /// caller may retry.
    UnexpectedError,
}

impl IdempotencyError {
    /// A short human-readable description of the error kind.
    pub fn message(&self) -> (r: String)
        ensures
            r@ == self.message_spec(),
    {
        match self {
            IdempotencyError::InvalidKey => String::from_str("invalid idempotency key"),
            IdempotencyError::InvalidStatusCode => String::from_str("invalid stored status code"),
            IdempotencyError::DuplicateKey => String::from_str("duplicate idempotency key"),
            IdempotencyError::KeyInUse => String::from_str("idempotency key in use by an open transaction"),
            IdempotencyError::UnexpectedError => String::from_str("unexpected storage error"),
        }
    }

    pub open spec fn message_spec(&self) -> Seq<char> {
        match self {
            IdempotencyError::InvalidKey => "invalid idempotency key"@,
            IdempotencyError::InvalidStatusCode => "invalid stored status code"@,
            IdempotencyError::DuplicateKey => "duplicate idempotency key"@,
            IdempotencyError::KeyInUse => "idempotency key in use by an open transaction"@,
            IdempotencyError::UnexpectedError => "unexpected storage error"@,
        }
    }
}

} // verus!
