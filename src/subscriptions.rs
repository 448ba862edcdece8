use crate::text::push_char;
use vstd::prelude::*;

verus! {

/// The public base URL of the application, used in confirmation links.
pub struct ApplicationBaseUrl(pub String);

/// Length of a subscription token, in characters.
pub const SUBSCRIPTION_TOKEN_LEN: usize = 25;

pub open spec fn is_ascii_alphanumeric(c: char) -> bool {
    ('a' <= c && c <= 'z') || ('A' <= c && c <= 'Z') || ('0' <= c && c <= '9')
}

/// Relies on rand 0.8: a sample of distributions::Alphanumeric from
/// thread_rng is one of the 62 ASCII letters and digits.
#[verifier::external_body]
fn random_alphanumeric() -> (c: char)
    ensures
        is_ascii_alphanumeric(c),
{
    char::from(rand::Rng::sample(&mut rand::thread_rng(), rand::distributions::Alphanumeric))
}

/// Whether `draws` can make a subscription token: exactly
/// `SUBSCRIPTION_TOKEN_LEN` ASCII letters and digits.
pub open spec fn valid_token_draws(draws: Seq<char>) -> bool {
    &&& draws.len() == SUBSCRIPTION_TOKEN_LEN
    &&& forall|i: int| 0 <= i < draws.len() ==> is_ascii_alphanumeric(#[trigger] draws[i])
}

/// The subscription token spelled by `draws`, when they are exactly
/// `SUBSCRIPTION_TOKEN_LEN` ASCII letters and digits.
pub fn token_from_draws(draws: &Vec<char>) -> (r: Option<String>)
    ensures
        r is Some <==> valid_token_draws(draws@),
        r matches Some(t) ==> t@ == draws@,
{
    if draws.len() != SUBSCRIPTION_TOKEN_LEN {
        return None;
    }
    let mut token = String::new();
    let mut i: usize = 0;
    while i < draws.len()
        invariant
            0 <= i <= draws.len(),
            token@ == draws@.take(i as int),
            forall|j: int| 0 <= j < i ==> is_ascii_alphanumeric(#[trigger] draws@[j]),
        decreases draws.len() - i,
    {
        let c = draws[i];
        if !(('a' <= c && c <= 'z') || ('A' <= c && c <= 'Z') || ('0' <= c && c <= '9')) {
            return None;
        }
        push_char(&mut token, c);
        i = i + 1;
        assert(token@ =~= draws@.take(i as int));
    }
    assert(draws@.take(draws@.len() as int) =~= draws@);
    Some(token)
}

/// A fresh random subscription token: 25 case-sensitive ASCII letters and
/// digits, spelled from as many draws of the random source.
pub fn generate_subscription_token() -> (r: String)
    ensures
        valid_token_draws(r@),
{
    let mut draws: Vec<char> = Vec::new();
    let mut i: usize = 0;
    while i < SUBSCRIPTION_TOKEN_LEN
        invariant
            0 <= i <= SUBSCRIPTION_TOKEN_LEN,
            draws@.len() == i,
            forall|j: int| 0 <= j < draws@.len() ==> is_ascii_alphanumeric(#[trigger] draws@[j]),
        decreases SUBSCRIPTION_TOKEN_LEN - i,
    {
        draws.push(random_alphanumeric());
        i = i + 1;
    }
    match token_from_draws(&draws) {
        Some(token) => token,
        None => String::new(),
    }
}

/// The confirmation email sent to a new subscriber.
pub struct ConfirmationEmail {
    pub subject: String,
    pub html_body: String,
    pub plain_body: String,
}

pub open spec fn confirmation_link_spec(base_url: Seq<char>, token: Seq<char>) -> Seq<char> {
    base_url + "/subscriptions/confirm?subscription_token="@ + token
}

/// The link that confirms the subscription holding `token`.
pub fn confirmation_link(base_url: &str, token: &str) -> (r: String)
    ensures
        r@ == confirmation_link_spec(base_url@, token@),
{
    let mut link = String::from_str(base_url);
    link.append("/subscriptions/confirm?subscription_token=");
    link.append(token);
    link
}

/// The welcome email for a new subscriber: subject `Welcome!`, with the
/// confirmation link in an HTML and a plain-text body.
pub fn confirmation_email(base_url: &str, token: &str) -> (r: ConfirmationEmail)
    ensures
        r.subject@ == "Welcome!"@,
        r.plain_body@ == "Welcome to our newsletter!\nVisit "@ + confirmation_link_spec(
            base_url@,
            token@,
        ) + " to confirm your subscription."@,
        r.html_body@ == "Welcome to our newsletter!<br />Click <a href=\""@
            + confirmation_link_spec(base_url@, token@) + "\">here</a> to confirm your subscription."@,
{
    let link = confirmation_link(base_url, token);
    let mut plain_body = String::from_str("Welcome to our newsletter!\nVisit ");
    plain_body.append(link.as_str());
    plain_body.append(" to confirm your subscription.");
    let mut html_body = String::from_str("Welcome to our newsletter!<br />Click <a href=\"");
    html_body.append(link.as_str());
    html_body.append("\">here</a> to confirm your subscription.");
    ConfirmationEmail { subject: String::from_str("Welcome!"), html_body, plain_body }
}

} // verus!
