use vstd::prelude::*;

use base64_simd::STANDARD;

verus! {

/// `base64_simd::Error`, the error of a failed decode, held opaque.
#[verifier::external_type_specification]
#[verifier::external_body]
pub struct ExBase64Error(base64_simd::Error);

/// The standard base64 text (RFC 4648 alphabet, `=` padding) of `data`, as
/// ASCII bytes.
pub uninterp spec fn base64_standard(data: Seq<u8>) -> Seq<u8>;

/// The bytes that standard base64 text decodes to, or `None` when the text is
/// not valid standard base64.
pub uninterp spec fn base64_standard_decoded(text: Seq<u8>) -> Option<Seq<u8>>;

/// Length of the padded base64 text of `n` bytes: four characters for every
/// three bytes or part of them.
pub open spec fn base64_len(n: int) -> int {
    if n % 3 == 0 { n / 3 * 4 } else { n / 3 * 4 + 4 }
}

/// `b` is a character of padded standard base64 text: `A`-`Z`, `a`-`z`,
/// `0`-`9`, `+`, `/` or `=`.
pub open spec fn base64_alphabet(b: u8) -> bool {
    ||| 65 <= b <= 90
    ||| 97 <= b <= 122
    ||| 48 <= b <= 57
    ||| b == 43
    ||| b == 47
    ||| b == 61
}

/// The characters of ASCII bytes.
pub open spec fn ascii_chars(bytes: Seq<u8>) -> Seq<char> {
    bytes.map_values(|b: u8| b as char)
}

/// `base64_simd::STANDARD.encoded_length(n)`: the padded base64 length of `n`
/// bytes. It panics when `n > usize::MAX / 2`, which `requires` excludes.
#[verifier::external_body]
pub(crate) fn base64_encoded_length(n: usize) -> (len: usize)
    requires
        n <= usize::MAX / 2,
    ensures
        len == base64_len(n as int),
{
    STANDARD.encoded_length(n)
}

/// `base64_simd::STANDARD.encode_append(src, dst)` on a `String`: appends the
/// padded standard base64 text of `src`, made of the base64 alphabet. It
/// panics when that text is longer than `usize::MAX / 2`, which `requires`
/// excludes.
#[verifier::external_body]
pub(crate) fn base64_encode_append(src: &[u8], dst: &mut String)
    requires
        base64_len(src@.len() as int) <= usize::MAX / 2,
    ensures
        final(dst)@ == old(dst)@ + ascii_chars(base64_standard(src@)) && forall|i: int|
            0 <= i < base64_standard(src@).len() ==> base64_alphabet(#[trigger] base64_standard(src@)[i]),
        final(dst)@.len() == old(dst)@.len() + base64_len(src@.len() as int),
{
    STANDARD.encode_append(src, dst)
}

/// `base64_simd::STANDARD.decode_to_vec(text)`: the bytes that standard
/// base64 text stands for, or an error when it is not valid standard base64.
/// Text made by encoding some bytes decodes to those bytes.
#[verifier::external_body]
pub(crate) fn base64_decode_to_vec(text: &[u8]) -> (decoded: Result<Vec<u8>, base64_simd::Error>)
    ensures
        match decoded {
            Ok(bytes) => {
                &&& base64_standard_decoded(text@) == Some(bytes@)
                &&& forall|data: Seq<u8>| #[trigger] base64_standard(data) == text@ ==> bytes@ == data
            },
            Err(_) => {
                &&& base64_standard_decoded(text@) is None
                &&& forall|data: Seq<u8>| #[trigger] base64_standard(data) != text@
            },
        },
{
    STANDARD.decode_to_vec(text)
}

} // verus!
