use crate::authentication::{AuthError, AuthFailure, UnexpectedFailure};
use crate::response::{HeaderEntry, ResponseRecord};
use vstd::prelude::*;
use vstd::utf8::encode_utf8;

verus! {

/// Why a login attempt was turned back.
#[derive(Debug, Clone, Copy, PartialEq, Eq, Structural)]
pub enum LoginError {
    AuthError(AuthFailure),
    UnexpectedError(UnexpectedFailure),
}

/// The login error for a failed credential check.
pub open spec fn login_error_of(e: AuthError) -> LoginError {
    match e {
        AuthError::InvalidCredentials(f) => LoginError::AuthError(f),
        AuthError::UnexpectedError(u) => LoginError::UnexpectedError(u),
    }
}

impl LoginError {
    pub open spec fn message_spec(&self) -> Seq<char> {
        match self {
            LoginError::AuthError(_) => "Authentication failed"@,
            LoginError::UnexpectedError(_) => "Something went wrong"@,
        }
    }

    /// The error in words, as shown to the user.
    pub fn message(&self) -> (r: &'static str)
        ensures
            r@ == self.message_spec(),
    {
        match self {
            LoginError::AuthError(_) => "Authentication failed",
            LoginError::UnexpectedError(_) => "Something went wrong",
        }
    }

    /// The login error for credentials that could not be checked or were
    /// refused.
    pub fn from_auth(e: AuthError) -> (r: LoginError)
        ensures
            r == login_error_of(e),
    {
        match e {
            AuthError::InvalidCredentials(f) => LoginError::AuthError(f),
            AuthError::UnexpectedError(u) => LoginError::UnexpectedError(u),
        }
    }
}

/// A `303 See Other` response to `location`.
pub fn see_other(location: &str) -> (r: ResponseRecord)
    ensures
        r.status_code == 303,
        r.headers@.len() == 1,
        r.headers@[0]@ == ("location"@, encode_utf8(location@)),
        r.body@.len() == 0,
{
    let mut headers: Vec<HeaderEntry> = Vec::new();
    headers.push(HeaderEntry { name: String::from_str("location"), value: location.as_bytes_vec() });
    ResponseRecord { status_code: 303, headers, body: Vec::new() }
}

/// Sends the user back to the login page after a failed attempt.
pub fn login_redirect() -> (r: ResponseRecord)
    ensures
        r.status_code == 303,
        r.headers@.len() == 1,
        r.headers@[0]@ == ("location"@, encode_utf8("/login"@)),
        r.body@.len() == 0,
{
    see_other("/login")
}

/// Where a successful login leads.
pub fn dashboard_redirect() -> (r: ResponseRecord)
    ensures
        r.status_code == 303,
        r.headers@.len() == 1,
        r.headers@[0]@ == ("location"@, encode_utf8("/admin/dashboard"@)),
        r.body@.len() == 0,
{
    see_other("/admin/dashboard")
}

/// The answer to a login attempt, given what checking the credentials
/// gave: the dashboard for a known user, the login page with the error
/// otherwise.
pub fn login_outcome(checked: Result<u128, AuthError>) -> (r: Result<ResponseRecord, (LoginError, ResponseRecord)>)
    ensures
        match checked {
            Ok(_) => r matches Ok(x) && x.status_code == 303 && x.headers@.len() == 1
                && x.headers@[0]@ == ("location"@, encode_utf8("/admin/dashboard"@))
                && x.body@.len() == 0,
            Err(e) => r matches Err((le, x)) && le == login_error_of(e) && x.status_code == 303
                && x.headers@.len() == 1 && x.headers@[0]@ == ("location"@, encode_utf8("/login"@))
                && x.body@.len() == 0,
        },
{
    match checked {
        Ok(_) => Ok(dashboard_redirect()),
        Err(e) => Err((LoginError::from_auth(e), login_redirect())),
    }
}

} // verus!
