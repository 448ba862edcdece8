use crate::error::IdempotencyError;
use vstd::prelude::*;

verus! {

/// The lowest valid HTTP status code.
pub const MIN_STATUS: u16 = 100;

/// The highest status code the codec accepts.
pub const MAX_STATUS: u16 = 599;

/// One header of a response, as (name, value bytes).
pub type HeaderModel = (Seq<char>, Seq<u8>);

/// A captured response, mathematically.
pub struct ResponseModel {
    pub status: int,
    pub headers: Seq<HeaderModel>,
    pub body: Seq<u8>,
}

/// A stored row's response columns, mathematically.
pub struct StoredModel {
    pub status: int,
    pub headers: Seq<HeaderModel>,
    pub body: Seq<u8>,
}

pub open spec fn valid_status(status: int) -> bool {
    MIN_STATUS <= status <= MAX_STATUS
}

/// What `encode` stores for a response: the status as a signed column,
/// the headers in order with their duplicates, the body verbatim.
pub open spec fn encode_spec(r: ResponseModel) -> StoredModel {
    StoredModel { status: r.status, headers: r.headers, body: r.body }
}

/// What `decode` rebuilds from a stored row; a status outside the HTTP
/// range is reported as corruption.
pub open spec fn decode_spec(s: StoredModel) -> Result<ResponseModel, IdempotencyError> {
    if valid_status(s.status) {
        Ok(ResponseModel { status: s.status, headers: s.headers, body: s.body })
    } else {
        Err(IdempotencyError::InvalidStatusCode)
    }
}

/// A response header. Names are not unique within a response.
#[derive(Debug)]
pub struct HeaderEntry {
    pub name: String,
    pub value: Vec<u8>,
}

impl View for HeaderEntry {
    type V = HeaderModel;

    open spec fn view(&self) -> HeaderModel {
        (self.name@, self.value@)
    }
}

pub open spec fn headers_view(headers: Seq<HeaderEntry>) -> Seq<HeaderModel> {
    headers.map_values(|h: HeaderEntry| h@)
}

/// A response captured from business logic: status, ordered headers and
/// the fully buffered body.
#[derive(Debug)]
pub struct ResponseRecord {
    pub status_code: u16,
    pub headers: Vec<HeaderEntry>,
    pub body: Vec<u8>,
}

impl View for ResponseRecord {
    type V = ResponseModel;

    open spec fn view(&self) -> ResponseModel {
        ResponseModel {
            status: self.status_code as int,
            headers: headers_view(self.headers@),
            body: self.body@,
        }
    }
}

/// The response columns of a stored row.
#[derive(Debug)]
pub struct StoredResponse {
    pub status_code: i16,
    pub headers: Vec<HeaderEntry>,
    pub body: Vec<u8>,
}

impl View for StoredResponse {
    type V = StoredModel;

    open spec fn view(&self) -> StoredModel {
        StoredModel {
            status: self.status_code as int,
            headers: headers_view(self.headers@),
            body: self.body@,
        }
    }
}

pub fn copy_bytes(v: &Vec<u8>) -> (r: Vec<u8>)
    ensures
        r@ == v@,
{
    let mut r: Vec<u8> = Vec::with_capacity(v.len());
    let mut i: usize = 0;
    while i < v.len()
        invariant
            0 <= i <= v.len(),
            r@ == v@.subrange(0, i as int),
        decreases v.len() - i,
    {
        r.push(v[i]);
        i = i + 1;
        assert(r@ =~= v@.subrange(0, i as int));
    }
    assert(r@ =~= v@);
    r
}

/// A deep copy of a header list, keeping order and duplicates.
pub fn copy_headers(headers: &Vec<HeaderEntry>) -> (r: Vec<HeaderEntry>)
    ensures
        headers_view(r@) == headers_view(headers@),
{
    let mut r: Vec<HeaderEntry> = Vec::with_capacity(headers.len());
    let mut i: usize = 0;
    while i < headers.len()
        invariant
            0 <= i <= headers.len(),
            r@.len() == i,
            forall|j: int| 0 <= j < i ==> (#[trigger] r@[j])@ == headers@[j]@,
        decreases headers.len() - i,
    {
        let h = &headers[i];
        let entry = HeaderEntry { name: h.name.clone(), value: copy_bytes(&h.value) };
        r.push(entry);
        i = i + 1;
    }
    assert(headers_view(r@) =~= headers_view(headers@));
    r
}

impl ResponseRecord {
    /// Captures a response whose body arrives as a sequence of chunks: the
    /// chunks are buffered once, in order, into a single body.
    pub fn capture(status_code: u16, headers: Vec<HeaderEntry>, chunks: Vec<Vec<u8>>) -> (r:
        ResponseRecord)
        ensures
            r.status_code == status_code,
            headers_view(r.headers@) == headers_view(headers@),
            r.body@ == chunks@.map_values(|c: Vec<u8>| c@).flatten(),
    {
        let mut body: Vec<u8> = Vec::new();
        let mut i: usize = 0;
        let ghost parts = chunks@.map_values(|c: Vec<u8>| c@);
        while i < chunks.len()
            invariant
                0 <= i <= chunks.len(),
                parts == chunks@.map_values(|c: Vec<u8>| c@),
                body@ == parts.subrange(0, i as int).flatten(),
            decreases chunks.len() - i,
        {
            let mut part = copy_bytes(&chunks[i]);
            proof {
                parts.subrange(0, i as int).lemma_flatten_push(parts[i as int]);
                assert(parts.subrange(0, i as int).push(parts[i as int]) =~= parts.subrange(
                    0,
                    i + 1,
                ));
            }
            body.append(&mut part);
            i = i + 1;
        }
        assert(parts.subrange(0, chunks@.len() as int) =~= parts);
        ResponseRecord { status_code, headers, body }
    }

    /// A deep copy of the record.
    pub fn duplicate(&self) -> (r: ResponseRecord)
        ensures
            r@ == self@,
    {
        ResponseRecord {
            status_code: self.status_code,
            headers: copy_headers(&self.headers),
            body: copy_bytes(&self.body),
        }
    }
}

/// Turns a response into the columns that are stored for it.
pub fn encode(r: ResponseRecord) -> (s: StoredResponse)
    requires
        valid_status(r.status_code as int),
    ensures
        s@ == encode_spec(r@),
{
    StoredResponse { status_code: r.status_code as i16, headers: r.headers, body: r.body }
}

/// Rebuilds a response from stored columns, or reports a status code that
/// no valid response can have.
pub fn decode(s: StoredResponse) -> (r: Result<ResponseRecord, IdempotencyError>)
    ensures
        match r {
            Ok(x) => decode_spec(s@) == Ok::<ResponseModel, IdempotencyError>(x@),
            Err(e) => decode_spec(s@) == Err::<ResponseModel, IdempotencyError>(e),
        },
{
    if s.status_code < MIN_STATUS as i16 || s.status_code > MAX_STATUS as i16 {
        return Err(IdempotencyError::InvalidStatusCode);
    }
    Ok(ResponseRecord { status_code: s.status_code as u16, headers: s.headers, body: s.body })
}

/// Decoding what was encoded gives back the same response: status, every
/// header in the order it came with its duplicates, and the body.
pub proof fn lemma_round_trip(r: ResponseModel)
    requires
        valid_status(r.status),
    ensures
        decode_spec(encode_spec(r)) == Ok::<ResponseModel, IdempotencyError>(r),
{
}

} // verus!
