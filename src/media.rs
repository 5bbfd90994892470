//! Local files handed to the front end as `data:` URIs: the media type
//! inferred from the file name, and the contents in standard base64.

use vstd::prelude::*;
use vstd::string::{StringExecFns, StringSliceAdditionalSpecFns};
use vstd::utf8::encode_utf8;
use base64::Engine;

verus! {

/// What standard base64, with padding, makes of a byte sequence.
pub uninterp spec fn base64_standard(b: Seq<u8>) -> Seq<char>;

/// What Unicode lower-casing makes of a text.
pub uninterp spec fn lower_of(s: Seq<char>) -> Seq<char>;

/// The length of the padded base64 text of `n` bytes.
pub open spec fn base64_len(n: nat) -> nat {
    4 * ((n + 2) / 3)
}

/// Whether the base64 text of `n` bytes has a length that fits in `usize`.
pub fn base64_len_fits(n: usize) -> (r: bool)
    ensures
        r == (base64_len(n as nat) <= usize::MAX),
{
    let groups: usize = n / 3 + if n % 3 > 0 {
        1
    } else {
        0
    };
    assert(groups == (n as nat + 2) / 3);
    groups <= usize::MAX / 4
}

/// Relies on base64's `STANDARD.encode`: the padded standard-alphabet
/// encoding, four characters for every started group of three bytes. It
/// panics only when that length overflows `usize`.
#[verifier::external_body]
fn encode_base64(b: &[u8]) -> (r: String)
    requires
        base64_len(b@.len()) <= usize::MAX,
    ensures
        r@ == base64_standard(b@),
        r@.len() == base64_len(b@.len()),
{
    base64::engine::general_purpose::STANDARD.encode(b)
}

/// Relies on `str::to_lowercase`: the lower-case form of the text, which
/// depends on its characters alone; the empty text stays empty.
#[verifier::external_body]
fn lowercase(s: &str) -> (r: String)
    ensures
        r@ == lower_of(s@),
        s@.len() == 0 ==> r@.len() == 0,
{
    s.to_lowercase()
}

/// `s` ends with the bytes of `suffix`.
pub open spec fn ends_with(s: Seq<u8>, suffix: Seq<u8>) -> bool {
    s.len() >= suffix.len() && s.subrange(s.len() - suffix.len(), s.len() as int) == suffix
}

/// The media type of a file whose lower-cased name has the bytes `lower`.
pub open spec fn mime_of(lower: Seq<u8>) -> Seq<char> {
    if ends_with(lower, encode_utf8(".png"@)) {
        "image/png"@
    } else if ends_with(lower, encode_utf8(".jpg"@)) || ends_with(lower, encode_utf8(".jpeg"@)) {
        "image/jpeg"@
    } else if ends_with(lower, encode_utf8(".gif"@)) {
        "image/gif"@
    } else if ends_with(lower, encode_utf8(".webp"@)) {
        "image/webp"@
    } else {
        "application/octet-stream"@
    }
}

/// The `data:` URI of a file named `path` that holds `contents`.
pub open spec fn data_uri_of(path: Seq<char>, contents: Seq<u8>) -> Seq<char> {
    "data:"@ + mime_of(encode_utf8(lower_of(path))) + ";base64,"@ + base64_standard(contents)
}

/// Whether the text `s` ends with the text `suffix`, byte for byte.
pub fn text_ends_with(s: &str, suffix: &str) -> (r: bool)
    ensures
        r == ends_with(s.spec_bytes(), suffix.spec_bytes()),
{
    let a = s.as_bytes();
    let b = suffix.as_bytes();
    if a.len() < b.len() {
        return false;
    }
    let off = a.len() - b.len();
    let mut i: usize = 0;
    while i < b.len()
        invariant
            a@ == s.spec_bytes(),
            b@ == suffix.spec_bytes(),
            b@.len() <= a@.len(),
            a@.len() <= usize::MAX,
            off == a@.len() - b@.len(),
            i <= b@.len(),
            forall|k: int| 0 <= k < i ==> a@[off + k] == b@[k],
        decreases b@.len() - i,
    {
        if a[off + i] != b[i] {
            proof {
                assert(a@.subrange(off as int, a@.len() as int)[i as int] != b@[i as int]);
            }
            return false;
        }
        i = i + 1;
    }
    proof {
        assert(a@.subrange(off as int, a@.len() as int) =~= b@);
    }
    true
}

/// The media type of a file whose name, lower-cased, is `lower`.
pub fn mime_for_lowered(lower: &str) -> (r: &'static str)
    ensures
        r@ == mime_of(lower.spec_bytes()),
{
    proof {
        reveal_strlit("image/png");
        reveal_strlit("image/jpeg");
        reveal_strlit("image/gif");
        reveal_strlit("image/webp");
        reveal_strlit("application/octet-stream");
    }
    if text_ends_with(lower, ".png") {
        "image/png"
    } else if text_ends_with(lower, ".jpg") || text_ends_with(lower, ".jpeg") {
        "image/jpeg"
    } else if text_ends_with(lower, ".gif") {
        "image/gif"
    } else if text_ends_with(lower, ".webp") {
        "image/webp"
    } else {
        "application/octet-stream"
    }
}

/// The media type of the file `path`, its name compared without regard to case.
pub fn mime_type_for_path(path: &str) -> (r: &'static str)
    ensures
        r@ == mime_of(encode_utf8(lower_of(path@))),
{
    let lower = lowercase(path);
    mime_for_lowered(lower.as_str())
}

/// The `data:` URI of the file `path` with the contents `contents`:
/// its media type, then the contents in padded standard base64.
pub fn encode_data_uri(path: &str, contents: &[u8]) -> (r: String)
    requires
        base64_len(contents@.len()) <= usize::MAX,
    ensures
        r@ == data_uri_of(path@, contents@),
{
    let mime = mime_type_for_path(path);
    let body = encode_base64(contents);
    let mut out = String::from_str("data:");
    out.append(mime);
    out.append(";base64,");
    out.append(body.as_str());
    proof {
        reveal_strlit("data:");
        reveal_strlit(";base64,");
    }
    out
}

} // verus!
