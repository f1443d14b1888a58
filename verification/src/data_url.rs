use vstd::prelude::*;

use crate::base64::{base64_decode_to_vec, base64_standard, base64_standard_decoded};
use vstd::string::StringSliceAdditionalSpecFns;

verus! {

/// Why a data URL could not be turned into bytes.
#[derive(Debug, Clone, Copy, PartialEq, Eq)]
pub enum DataUrlError {
    /// Not a `data:` URL with a `;base64` marker before its comma.
    NotABase64DataUrl,
    /// The text after the comma is not valid standard base64.
    InvalidBase64,
}

pub open spec fn data_url_error_text(e: DataUrlError) -> Seq<char> {
    match e {
        DataUrlError::NotABase64DataUrl => "Paperback image polyfill only supports data URLs"@,
        DataUrlError::InvalidBase64 => "Invalid base64 image data URL: Base64Error"@,
    }
}

impl DataUrlError {
    /// The message a script sees for this error.
    pub fn message(&self) -> (text: String)
        ensures
            text@ == data_url_error_text(*self),
    {
        match self {
            DataUrlError::NotABase64DataUrl => String::from_str("Paperback image polyfill only supports data URLs"),
            DataUrlError::InvalidBase64 => String::from_str("Invalid base64 image data URL: Base64Error"),
        }
    }
}

/// Index of the first byte `c` at or after `from`.
pub open spec fn find_byte(bytes: Seq<u8>, c: u8, from: int) -> Option<int>
    decreases bytes.len() - from,
{
    if from >= bytes.len() || from < 0 {
        None
    } else if bytes[from] == c {
        Some(from)
    } else {
        find_byte(bytes, c, from + 1)
    }
}

proof fn lemma_find_byte_found(bytes: Seq<u8>, c: u8, from: int)
    ensures
        find_byte(bytes, c, from) matches Some(i) ==> from <= i < bytes.len() && bytes[i] == c,
    decreases bytes.len() - from,
{
    if from < bytes.len() && from >= 0 && bytes[from] != c {
        lemma_find_byte_found(bytes, c, from + 1);
    }
}

/// The first `c` at or after `from` is at `k`.
pub proof fn lemma_find_byte_at(bytes: Seq<u8>, c: u8, from: int, k: int)
    requires
        0 <= from <= k < bytes.len(),
        bytes[k] == c,
        forall|j: int| from <= j < k ==> bytes[j] != c,
    ensures
        find_byte(bytes, c, from) == Some(k),
    decreases k - from,
{
    if from < k {
        lemma_find_byte_at(bytes, c, from + 1, k);
    }
}

/// `c` with ASCII capitals made small.
pub open spec fn ascii_lower(c: u8) -> u8 {
    if 65 <= c <= 90 { (c + 32) as u8 } else { c }
}

/// `;base64`.
pub open spec fn base64_marker() -> Seq<u8> {
    seq![59u8, 98u8, 97u8, 115u8, 101u8, 54u8, 52u8]
}

/// `;base64`, in any case, starts at byte `i`.
pub open spec fn marker_at(bytes: Seq<u8>, i: int) -> bool {
    &&& 0 <= i
    &&& i + 7 <= bytes.len()
    &&& forall|k: int| 0 <= k < 7 ==> ascii_lower(#[trigger] bytes[i + k]) == base64_marker()[k]
}

/// `;base64`, in any case, occurs in `bytes`.
pub open spec fn has_base64_marker(bytes: Seq<u8>) -> bool {
    exists|i: int| marker_at(bytes, i)
}

/// The base64 text of a data URL (its bytes after the first comma), when the
/// URL has text before that comma holding `;base64` in any case.
pub open spec fn data_url_payload(url: Seq<u8>) -> Option<Seq<u8>> {
    match find_byte(url, 44, 0) {
        Some(comma) => if comma > 0 && has_base64_marker(url.subrange(0, comma)) {
            Some(url.subrange(comma + 1, url.len() as int))
        } else {
            None
        },
        None => None,
    }
}

fn lower(c: u8) -> (l: u8)
    ensures
        l == ascii_lower(c),
{
    if 65 <= c && c <= 90 { c + 32 } else { c }
}

fn marker_at_exec(bytes: &[u8], i: usize, end: usize) -> (found: bool)
    requires
        end <= bytes@.len(),
        i + 7 <= end,
    ensures
        found == marker_at(bytes@.subrange(0, end as int), i as int),
{
    let found = lower(bytes[i]) == 59 && lower(bytes[i + 1]) == 98 && lower(bytes[i + 2]) == 97 && lower(bytes[i + 3])
        == 115 && lower(bytes[i + 4]) == 101 && lower(bytes[i + 5]) == 54 && lower(bytes[i + 6]) == 52;
    let ghost prefix = bytes@.subrange(0, end as int);
    proof {
        if found {
            assert forall|k: int| 0 <= k < 7 implies ascii_lower(#[trigger] prefix[i + k]) == base64_marker()[k] by {
                assert(prefix[i + k] == bytes@[i + k]);
            }
        } else {
            if marker_at(prefix, i as int) {
                assert(ascii_lower(prefix[i + 0]) == base64_marker()[0]);
                assert(ascii_lower(prefix[i + 1]) == base64_marker()[1]);
                assert(ascii_lower(prefix[i + 2]) == base64_marker()[2]);
                assert(ascii_lower(prefix[i + 3]) == base64_marker()[3]);
                assert(ascii_lower(prefix[i + 4]) == base64_marker()[4]);
                assert(ascii_lower(prefix[i + 5]) == base64_marker()[5]);
                assert(ascii_lower(prefix[i + 6]) == base64_marker()[6]);
            }
        }
    }
    found
}

/// Whether `bytes[..end]` holds `;base64` in any case.
fn has_base64_marker_exec(bytes: &[u8], end: usize) -> (found: bool)
    requires
        end <= bytes@.len(),
    ensures
        found == has_base64_marker(bytes@.subrange(0, end as int)),
{
    let ghost prefix = bytes@.subrange(0, end as int);
    if end < 7 {
        assert forall|i: int| !marker_at(prefix, i) by {}
        return false;
    }
    let mut i: usize = 0;
    while i <= end - 7
        invariant
            end <= bytes@.len(),
            7 <= end,
            i <= end - 6,
            prefix == bytes@.subrange(0, end as int),
            forall|j: int| 0 <= j < i ==> !marker_at(prefix, j),
        decreases end - i,
    {
        if marker_at_exec(bytes, i, end) {
            return true;
        }
        i += 1;
    }
    assert forall|j: int| !marker_at(prefix, j) by {
        if 0 <= j < i {
        }
    }
    false
}

/// Index of the first comma in `bytes`.
fn find_comma(bytes: &[u8]) -> (comma: Option<usize>)
    ensures
        match find_byte(bytes@, 44, 0) {
            Some(i) => comma == Some(i as usize),
            None => comma is None,
        },
        comma matches Some(c) ==> c < bytes@.len() && find_byte(bytes@, 44, 0) == Some(c as int),
{
    proof {
        lemma_find_byte_found(bytes@, 44, 0);
    }
    let n = bytes.len();
    let mut i: usize = 0;
    while i < n
        invariant
            n == bytes@.len(),
            i <= n,
            find_byte(bytes@, 44, 0) == find_byte(bytes@, 44, i as int),
        decreases n - i,
    {
        if bytes[i] == 44 {
            return Some(i);
        }
        i += 1;
    }
    None
}

/// The bytes a base64 data URL (`data:<type>;base64,<text>`) holds: the
/// base64 text after the first comma, decoded, when the part before that
/// comma is not empty and holds `;base64` in any case.
pub fn decode_base64_data_url(value: &str) -> (decoded: Result<Vec<u8>, DataUrlError>)
    ensures
        match data_url_payload(value.spec_bytes()) {
            None => decoded == Err::<Vec<u8>, DataUrlError>(DataUrlError::NotABase64DataUrl),
            Some(text) => match base64_standard_decoded(text) {
                Some(bytes) => decoded matches Ok(v) && v@ == bytes,
                None => decoded == Err::<Vec<u8>, DataUrlError>(DataUrlError::InvalidBase64),
            },
        },
        forall|data: Seq<u8>|
            data_url_payload(value.spec_bytes()) == Some(#[trigger] base64_standard(data)) ==> (decoded matches Ok(v)
                && v@ == data),
{
    let bytes = value.as_bytes();
    let comma = match find_comma(bytes) {
        Some(comma) => comma,
        None => return Err(DataUrlError::NotABase64DataUrl),
    };
    if comma == 0 || !has_base64_marker_exec(bytes, comma) {
        return Err(DataUrlError::NotABase64DataUrl);
    }
    let n = bytes.len();
    let text = vstd::slice::slice_subrange(bytes, comma + 1, n);
    match base64_decode_to_vec(text) {
        Ok(decoded) => Ok(decoded),
        Err(_) => Err(DataUrlError::InvalidBase64),
    }
}

} // verus!
