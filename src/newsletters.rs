use crate::authentication::{AuthError, AuthFailure, Credentials, UnexpectedFailure};
use crate::response::{HeaderEntry, ResponseRecord};
use crate::text::{split_at_colon, split_once_colon, utf8_text};
use vstd::prelude::*;
use vstd::utf8::{decode_utf8, encode_utf8, valid_utf8};

verus! {

/// Why publishing a newsletter issue failed.
#[derive(Debug, Clone, Copy, PartialEq, Eq, Structural)]
pub enum PublishError {
    AuthError(AuthFailure),
    UnexpectedError(UnexpectedFailure),
}

impl PublishError {
    pub open spec fn message_spec(&self) -> Seq<char> {
        match self {
            PublishError::AuthError(_) => "Authentication failed."@,
            PublishError::UnexpectedError(cause) => cause.message_spec(),
        }
    }

    /// The error in words: a fixed text for refused credentials, the
    /// cause's text otherwise.
    pub fn message(&self) -> (r: &'static str)
        ensures
            r@ == self.message_spec(),
    {
        match self {
            PublishError::AuthError(_) => "Authentication failed.",
            PublishError::UnexpectedError(cause) => cause.message(),
        }
    }

    /// The HTTP response for this error: 401 with a challenge for the
    /// `publish` realm when credentials were refused, 500 otherwise.
    pub fn error_response(&self) -> (r: ResponseRecord)
        ensures
            r.body@.len() == 0,
            match self {
                PublishError::AuthError(_) => {
                    &&& r.status_code == 401
                    &&& r.headers@.len() == 1
                    &&& r.headers@[0]@ == ("www-authenticate"@, encode_utf8("Basic realm=\"publish\""@))
                },
                PublishError::UnexpectedError(_) => r.status_code == 500 && r.headers@.len() == 0,
            },
    {
        match self {
            PublishError::UnexpectedError(_) => {
                ResponseRecord { status_code: 500, headers: Vec::new(), body: Vec::new() }
            },
            PublishError::AuthError(_) => {
                let mut headers: Vec<HeaderEntry> = Vec::new();
                headers.push(
                    HeaderEntry {
                        name: String::from_str("www-authenticate"),
                        value: "Basic realm=\"publish\"".as_bytes_vec(),
                    },
                );
                ResponseRecord { status_code: 401, headers, body: Vec::new() }
            },
        }
    }

    /// The error reported for credentials that could not be checked or
    /// were refused.
    pub fn from_auth(e: AuthError) -> (r: PublishError)
        ensures
            match e {
                AuthError::InvalidCredentials(f) => r == PublishError::AuthError(f),
                AuthError::UnexpectedError(u) => r == PublishError::UnexpectedError(u),
            },
    {
        match e {
            AuthError::InvalidCredentials(f) => PublishError::AuthError(f),
            AuthError::UnexpectedError(u) => PublishError::UnexpectedError(u),
        }
    }
}

/// The body of a publish request.
pub struct BodyData {
    pub title: String,
    pub content: Content,
}

/// A newsletter issue's content, as HTML and as plain text.
pub struct Content {
    pub html: String,
    pub text: String,
}

/// What standard base64 decoding makes of `s`, when it is valid base64.
pub uninterp spec fn base64_decoded(s: Seq<char>) -> Option<Seq<u8>>;

/// Relies on base64::decode_config with base64::STANDARD: the decoded
/// bytes, or nothing when the input is not valid padded standard base64.
#[verifier::external_body]
fn decode_base64(s: &str) -> (r: Option<Vec<u8>>)
    ensures
        match r {
            Some(b) => base64_decoded(s@) == Some(b@),
            None => base64_decoded(s@) is None,
        },
{
    base64::decode_config(s, base64::STANDARD).ok()
}

/// Header bytes that form text: visible ASCII and tabs.
pub open spec fn visible_ascii(b: Seq<u8>) -> bool {
    forall|i: int| 0 <= i < b.len() ==> (32 <= #[trigger] b[i] < 127 || b[i] == 9)
}

/// Username and password from decoded `Basic` credentials `user:password`.
pub open spec fn credentials_spec(decoded: Seq<u8>) -> Result<(Seq<char>, Seq<char>), PublishError> {
    if !valid_utf8(decoded) {
        Err(PublishError::AuthError(AuthFailure::InvalidDecodedText))
    } else {
        match split_at_colon(decode_utf8(decoded)) {
            Some(pair) => Ok(pair),
            None => Err(PublishError::AuthError(AuthFailure::MissingPassword)),
        }
    }
}

/// Username and password from an `Authorization` header, if present.
pub open spec fn basic_authentication_spec(header: Option<Seq<u8>>) -> Result<
    (Seq<char>, Seq<char>),
    PublishError,
> {
    match header {
        None => Err(PublishError::AuthError(AuthFailure::MissingHeader)),
        Some(h) => if !visible_ascii(h) || !valid_utf8(h) {
            Err(PublishError::AuthError(AuthFailure::InvalidHeaderText))
        } else {
            let t = decode_utf8(h);
            if t.len() < 6 || t.subrange(0, 6) != "Basic "@ {
                Err(PublishError::AuthError(AuthFailure::NotBasicScheme))
            } else {
                match base64_decoded(t.subrange(6, t.len() as int)) {
                    None => Err(PublishError::AuthError(AuthFailure::InvalidBase64)),
                    Some(d) => credentials_spec(d),
                }
            }
        },
    }
}

pub open spec fn credentials_view(r: Result<Credentials, PublishError>) -> Result<
    (Seq<char>, Seq<char>),
    PublishError,
> {
    match r {
        Ok(c) => Ok((c.username@, c.password@)),
        Err(e) => Err(e),
    }
}

/// Reads the username and password out of decoded `Basic` credentials:
/// UTF-8 text, split at its first `:`.
pub fn credentials_from_decoded(decoded: Vec<u8>) -> (r: Result<Credentials, PublishError>)
    ensures
        credentials_view(r) == credentials_spec(decoded@),
{
    let text = match utf8_text(decoded) {
        Some(t) => t,
        None => return Err(PublishError::AuthError(AuthFailure::InvalidDecodedText)),
    };
    match split_once_colon(text.as_str()) {
        Some((username, password)) => Ok(Credentials { username, password }),
        None => Err(PublishError::AuthError(AuthFailure::MissingPassword)),
    }
}

fn visible_ascii_exec(b: &Vec<u8>) -> (r: bool)
    ensures
        r == visible_ascii(b@),
{
    let mut i: usize = 0;
    while i < b.len()
        invariant
            0 <= i <= b.len(),
            forall|j: int| 0 <= j < i ==> (32 <= #[trigger] b@[j] < 127 || b@[j] == 9),
        decreases b.len() - i,
    {
        let c = b[i];
        if !(32 <= c && c < 127 || c == 9) {
            return false;
        }
        i = i + 1;
    }
    true
}

/// Extracts `Basic` credentials from the raw `Authorization` header value.
pub fn basic_authentication(authorization: Option<Vec<u8>>) -> (r: Result<Credentials, PublishError>)
    ensures
        credentials_view(r) == basic_authentication_spec(
            match authorization {
                Some(h) => Some(h@),
                None => None,
            },
        ),
{
    let raw = match authorization {
        Some(h) => h,
        None => return Err(PublishError::AuthError(AuthFailure::MissingHeader)),
    };
    if !visible_ascii_exec(&raw) {
        return Err(PublishError::AuthError(AuthFailure::InvalidHeaderText));
    }
    let text = match utf8_text(raw) {
        Some(t) => t,
        None => return Err(PublishError::AuthError(AuthFailure::InvalidHeaderText)),
    };
    let t = text.as_str();
    let n = t.unicode_len();
    proof {
        reveal_strlit("Basic ");
    }
    if n < 6 {
        return Err(PublishError::AuthError(AuthFailure::NotBasicScheme));
    }
    let scheme = t.substring_char(0, 6);
    if !(String::from_str(scheme) == String::from_str("Basic ")) {
        return Err(PublishError::AuthError(AuthFailure::NotBasicScheme));
    }
    let encoded = t.substring_char(6, n);
    match decode_base64(encoded) {
        None => Err(PublishError::AuthError(AuthFailure::InvalidBase64)),
        Some(decoded) => credentials_from_decoded(decoded),
    }
}

} // verus!
