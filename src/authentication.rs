use vstd::prelude::*;

verus! {

/// Why credentials were refused.
#[derive(Debug, Clone, Copy, PartialEq, Eq, Structural)]
pub enum AuthFailure {
    MissingHeader,
    InvalidHeaderText,
    NotBasicScheme,
    InvalidBase64,
    InvalidDecodedText,
    MissingPassword,
    UnknownUsername,
    InvalidPassword,
}

/// What went wrong on the server's side.
#[derive(Debug, Clone, Copy, PartialEq, Eq, Structural)]
pub enum UnexpectedFailure {
    QueryFailed,
    InvalidStoredHash,
    DeliveryFailed,
    SessionFailed,
}

impl AuthFailure {
    pub open spec fn message_spec(&self) -> Seq<char> {
        match self {
            AuthFailure::MissingHeader => "The 'Authorization' header was missing"@,
            AuthFailure::InvalidHeaderText => "The 'Authorization' header was not a valid UTF8 string."@,
            AuthFailure::NotBasicScheme => "The 'Authorization' scheme was not 'Basic'."@,
            AuthFailure::InvalidBase64 => "Failed to base64-decode 'Basic' credentials."@,
            AuthFailure::InvalidDecodedText => "The decoded credential string is not valid UTF8."@,
            AuthFailure::MissingPassword => "A password must be provided in 'Basic' auth."@,
            AuthFailure::UnknownUsername => "Unknown username."@,
            AuthFailure::InvalidPassword => "Invalid password."@,
        }
    }

    /// The diagnostic text for this failure.
    pub fn message(&self) -> (r: &'static str)
        ensures
            r@ == self.message_spec(),
    {
        match self {
            AuthFailure::MissingHeader => "The 'Authorization' header was missing",
            AuthFailure::InvalidHeaderText => "The 'Authorization' header was not a valid UTF8 string.",
            AuthFailure::NotBasicScheme => "The 'Authorization' scheme was not 'Basic'.",
            AuthFailure::InvalidBase64 => "Failed to base64-decode 'Basic' credentials.",
            AuthFailure::InvalidDecodedText => "The decoded credential string is not valid UTF8.",
            AuthFailure::MissingPassword => "A password must be provided in 'Basic' auth.",
            AuthFailure::UnknownUsername => "Unknown username.",
            AuthFailure::InvalidPassword => "Invalid password.",
        }
    }
}

impl UnexpectedFailure {
    pub open spec fn message_spec(&self) -> Seq<char> {
        match self {
            UnexpectedFailure::QueryFailed => "Failed to perform a query to retrieve stored credentials."@,
            UnexpectedFailure::InvalidStoredHash => "Failed to parse hash in PHC string format."@,
            UnexpectedFailure::DeliveryFailed => "Failed to send newsletter issue."@,
            UnexpectedFailure::SessionFailed => "Failed to update the session."@,
        }
    }

    /// The diagnostic text for this failure.
    pub fn message(&self) -> (r: &'static str)
        ensures
            r@ == self.message_spec(),
    {
        match self {
            UnexpectedFailure::QueryFailed => "Failed to perform a query to retrieve stored credentials.",
            UnexpectedFailure::InvalidStoredHash => "Failed to parse hash in PHC string format.",
            UnexpectedFailure::DeliveryFailed => "Failed to send newsletter issue.",
            UnexpectedFailure::SessionFailed => "Failed to update the session.",
        }
    }
}

/// The outcome of checking credentials that could not be accepted.
#[derive(Debug, Clone, Copy, PartialEq, Eq, Structural)]
pub enum AuthError {
    InvalidCredentials(AuthFailure),
    UnexpectedError(UnexpectedFailure),
}

/// A username and the password offered for it.
#[derive(Debug)]
pub struct Credentials {
    pub username: String,
    pub password: String,
}

/// Whether `phc` parses as a PHC-format password hash.
pub uninterp spec fn phc_parses(phc: Seq<char>) -> bool;

/// Whether `password` hashes, with the algorithm, version, parameters and
/// salt recorded in `phc`, to the output recorded in `phc`.
pub uninterp spec fn password_matches(password: Seq<char>, phc: Seq<char>) -> bool;

/// Relies on argon2::PasswordHash::new: whether the string is a valid PHC
/// hash string.
#[verifier::external_body]
fn parse_phc(phc: &str) -> (r: bool)
    ensures
        r == phc_parses(phc@),
{
    argon2::PasswordHash::new(phc).is_ok()
}

/// Relies on PasswordVerifier::verify_password of argon2::Argon2 (default
/// instance), on a hash string that parses: whether the password matches.
#[verifier::external_body]
fn verify_password(password: &str, phc: &str) -> (r: bool)
    requires
        phc_parses(phc@),
    ensures
        r == password_matches(password@, phc@),
{
    match argon2::PasswordHash::new(phc) {
        Ok(hash) => argon2::PasswordVerifier::verify_password(
            &argon2::Argon2::default(),
            password.as_bytes(),
            &hash,
        ).is_ok(),
        Err(_) => false,
    }
}

/// What checking `password` against the stored user row gives.
pub open spec fn check_credentials_spec(
    stored: Option<(u128, Seq<char>)>,
    password: Seq<char>,
) -> Result<u128, AuthError> {
    match stored {
        None => Err(AuthError::InvalidCredentials(AuthFailure::UnknownUsername)),
        Some((user_id, phc)) => if !phc_parses(phc) {
            Err(AuthError::UnexpectedError(UnexpectedFailure::InvalidStoredHash))
        } else if !password_matches(password, phc) {
            Err(AuthError::InvalidCredentials(AuthFailure::InvalidPassword))
        } else {
            Ok(user_id)
        },
    }
}

/// Checks a password against the row stored for its username (the user id
/// and the PHC hash string), if there is one, and gives the user id.
pub fn check_credentials(stored: Option<(u128, String)>, password: &str) -> (r: Result<
    u128,
    AuthError,
>)
    ensures
        r == check_credentials_spec(
            match stored {
                Some((u, h)) => Some((u, h@)),
                None => None,
            },
            password@,
        ),
{
    match stored {
        None => Err(AuthError::InvalidCredentials(AuthFailure::UnknownUsername)),
        Some((user_id, phc)) => {
            if !parse_phc(phc.as_str()) {
                return Err(AuthError::UnexpectedError(UnexpectedFailure::InvalidStoredHash));
            }
            if !verify_password(password, phc.as_str()) {
                return Err(AuthError::InvalidCredentials(AuthFailure::InvalidPassword));
            }
            Ok(user_id)
        },
    }
}

} // verus!
