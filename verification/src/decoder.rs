//! The Decoder: turns an untrusted data-URL byte string into the raw bytes of
//! a compressed image, or a classified failure.
//!
//! A data URL has the shape `<header>,<base64 payload>`. Everything after the
//! first comma is the payload; the header before it is discarded unvalidated.

use vstd::prelude::*;

use crate::errors::ProcessError;

verus! {

/// The request payload: a single string holding the data URL. Nothing else
/// of the request is interpreted.
pub struct ImageData {
    pub data_url: String,
}

impl ImageData {
    /// The raw bytes of the request's data URL, as the Decoder consumes them.
    pub fn request_bytes(&self) -> (r: Vec<u8>)
        ensures
            r@ == vstd::utf8::encode_utf8(self.data_url@),
    {
        vstd::slice::slice_to_vec(self.data_url.as_str().as_bytes())
    }
}

/// The ASCII code of `,`, the delimiter between header and payload.
pub const COMMA: u8 = 44;

/// Whether the request string contains the expected delimiter at all.
pub open spec fn has_comma(s: Seq<u8>) -> bool {
    exists|i: int| 0 <= i < s.len() && s[i] == COMMA
}

/// `i` is the position of the first comma of `s`.
pub open spec fn is_first_comma(s: Seq<u8>, i: int) -> bool {
    &&& 0 <= i < s.len()
    &&& s[i] == COMMA
    &&& forall|j: int| 0 <= j < i ==> s[j] != COMMA
}

/// The position of the first comma of `s`.
pub open spec fn first_comma(s: Seq<u8>) -> int {
    choose|i: int| is_first_comma(s, i)
}

/// The encoding payload of a data URL: exactly the bytes after the first
/// comma, commas included if any follow.
pub open spec fn payload_of(s: Seq<u8>) -> Seq<u8>
    recommends
        has_comma(s),
{
    s.subrange(first_comma(s) + 1, s.len() as int)
}

/// A string has at most one first comma.
pub proof fn lemma_first_comma_unique(s: Seq<u8>, i: int, j: int)
    requires
        is_first_comma(s, i),
        is_first_comma(s, j),
    ensures
        i == j,
{
    if i < j {
        assert(s[i] != COMMA);
    }
    if j < i {
        assert(s[j] != COMMA);
    }
}

/// Law: whenever `i` is the position of the first comma, the extracted payload
/// is exactly the suffix after `i` — later commas in the payload change
/// nothing.
pub proof fn lemma_payload_after_first_comma(s: Seq<u8>, i: int)
    requires
        is_first_comma(s, i),
    ensures
        has_comma(s),
        payload_of(s) == s.subrange(i + 1, s.len() as int),
{
    assert(has_comma(s)) by {
        assert(0 <= i < s.len() && s[i] == COMMA);
    }
    let k = first_comma(s);
    assert(is_first_comma(s, k)) by {
        assert(is_first_comma(s, i));
    }
    lemma_first_comma_unique(s, i, k);
}

/// Split step of the Decoder: return the payload after the first comma, or
/// nothing when the string holds no comma.
#[verifier::loop_isolation(false)]
pub fn extract_base64_payload(data_url: &Vec<u8>) -> (r: Option<Vec<u8>>)
    ensures
        r is Some <==> has_comma(data_url@),
        r is Some ==> r->Some_0@ == payload_of(data_url@),
{
    let n: usize = data_url.len();
    let mut i: usize = 0;
    while i < n
        invariant
            i <= n,
            forall|j: int| 0 <= j < i ==> data_url@[j] != COMMA,
        decreases n - i,
    {
        if data_url[i] == COMMA {
            proof {
                assert(is_first_comma(data_url@, i as int));
                lemma_payload_after_first_comma(data_url@, i as int);
            }
            let mut payload: Vec<u8> = Vec::new();
            let mut k: usize = i + 1;
            while k < n
                invariant
                    i + 1 <= k <= n,
                    payload@ == data_url@.subrange(i + 1, k as int),
                decreases n - k,
            {
                payload.push(data_url[k]);
                assert(payload@ =~= data_url@.subrange(i + 1, k + 1));
                k = k + 1;
            }
            assert(payload@ == payload_of(data_url@));
            return Some(payload);
        }
        i = i + 1;
    }
    assert(!has_comma(data_url@));
    None
}

/// What the base64 decoder of the outside world yields on a given byte
/// string: its decoded bytes, or nothing when the string is not valid
/// base64. A function of the input bytes alone.
pub uninterp spec fn base64_decoding(s: Seq<u8>) -> Option<Seq<u8>>;

/// Relies on `base64::decode` (standard alphabet, padding as encoded):
/// whether a byte string decodes, and to what, depends on those bytes alone.
#[verifier::external_body]
fn base64_decode(payload: &Vec<u8>) -> (r: Option<Vec<u8>>)
    ensures
        r is Some <==> base64_decoding(payload@) is Some,
        r is Some ==> r->Some_0@ == base64_decoding(payload@)->Some_0,
{
    base64::decode(payload.as_slice()).ok()
}

/// The outcome the Decoder owes on a given request string: the base64-decoded
/// payload after the first comma, `MalformedInput` when there is no comma,
/// `InvalidEncoding` when the payload is not valid base64.
pub open spec fn decoded_request(s: Seq<u8>) -> Result<Seq<u8>, ProcessError> {
    if !has_comma(s) {
        Err(ProcessError::MalformedInput)
    } else {
        match base64_decoding(payload_of(s)) {
            Some(bytes) => Ok(bytes),
            None => Err(ProcessError::InvalidEncoding),
        }
    }
}

/// The Decoder's front half: split the request at its first comma and
/// base64-decode the payload. A request without a comma fails with
/// `MalformedInput` before any decoding is attempted.
pub fn decode_data_url(data_url: &Vec<u8>) -> (r: Result<Vec<u8>, ProcessError>)
    ensures
        r is Ok <==> decoded_request(data_url@) is Ok,
        r is Ok ==> r->Ok_0@ == decoded_request(data_url@)->Ok_0,
        r is Err ==> r->Err_0 == decoded_request(data_url@)->Err_0,
{
    match extract_base64_payload(data_url) {
        None => Err(ProcessError::MalformedInput),
        Some(payload) => match base64_decode(&payload) {
            None => Err(ProcessError::InvalidEncoding),
            Some(bytes) => Ok(bytes),
        },
    }
}

} // verus!
