use crate::error::IdempotencyError;
use vstd::prelude::*;

verus! {

/// The longest key that is accepted, in characters.
pub const MAX_KEY_LEN: usize = 50;

/// Characters allowed in a key: ASCII letters and digits, `-` and `_`.
pub open spec fn is_key_char(c: char) -> bool {
    ('a' <= c && c <= 'z') || ('A' <= c && c <= 'Z') || ('0' <= c && c <= '9') || c == '-'
        || c == '_'
}

/// A key is valid when it is non-empty, at most `MAX_KEY_LEN` characters
/// long, and made of key characters only.
pub open spec fn valid_key(s: Seq<char>) -> bool {
    &&& 0 < s.len() <= MAX_KEY_LEN
    &&& forall|i: int| 0 <= i < s.len() ==> is_key_char(#[trigger] s[i])
}

fn key_char(c: char) -> (r: bool)
    ensures
        r == is_key_char(c),
{
    ('a' <= c && c <= 'z') || ('A' <= c && c <= 'Z') || ('0' <= c && c <= '9') || c == '-'
        || c == '_'
}

/// A caller-supplied token naming one logical attempt of an operation.
/// Immutable once built; always valid.
#[derive(Debug, PartialEq, Eq, Hash)]
pub struct IdempotencyKey {
    raw: String,
}

impl View for IdempotencyKey {
    type V = Seq<char>;

    closed spec fn view(&self) -> Seq<char> {
        self.raw@
    }
}

impl Clone for IdempotencyKey {
    fn clone(&self) -> (r: Self)
        ensures
            r@ == self@,
    {
        proof {
            use_type_invariant(self);
        }
        IdempotencyKey { raw: self.raw.clone() }
    }
}

impl IdempotencyKey {
    #[verifier::type_invariant]
    closed spec fn inv(&self) -> bool {
        valid_key(self.raw@)
    }

    /// Validates `raw` and wraps it.
    pub fn parse(raw: String) -> (r: Result<IdempotencyKey, IdempotencyError>)
        ensures
            valid_key(raw@) ==> (r matches Ok(k) && k@ == raw@),
            !valid_key(raw@) ==> r == Err::<IdempotencyKey, IdempotencyError>(
                IdempotencyError::InvalidKey,
            ),
    {
        let n = raw.as_str().unicode_len();
        if n == 0 || n > MAX_KEY_LEN {
            return Err(IdempotencyError::InvalidKey);
        }
        let mut i: usize = 0;
        while i < n
            invariant
                n == raw@.len(),
                0 <= i <= n,
                forall|j: int| 0 <= j < i ==> is_key_char(#[trigger] raw@[j]),
            decreases n - i,
        {
            let c = raw.as_str().get_char(i);
            if !key_char(c) {
                return Err(IdempotencyError::InvalidKey);
            }
            i = i + 1;
        }
        Ok(IdempotencyKey { raw })
    }

    /// Compares two keys by value.
    pub fn same_as(&self, other: &IdempotencyKey) -> (r: bool)
        ensures
            r == (self@ == other@),
    {
        self.raw == other.raw
    }

    /// The key as a string, for use as a storage parameter.
    pub fn as_str(&self) -> (r: &str)
        ensures
            r@ == self@,
            valid_key(r@),
    {
        proof {
            use_type_invariant(self);
        }
        self.raw.as_str()
    }
}

} // verus!
