//! Request-line parsing: recovering the request path from the raw bytes of
//! an incoming HTTP request.

use vstd::prelude::*;
use vstd::slice::*;
use vstd::string::*;
use vstd::utf8::{decode_utf8, valid_utf8};
use crate::text::{trim, trim_spec};

verus! {

/// The characters that `String::from_utf8_lossy` yields for the given bytes.
pub uninterp spec fn lossy_decode_of(b: Seq<u8>) -> Seq<char>;

/// Relies on `String::from_utf8_lossy`: the result depends on the bytes
/// alone, and bytes that form valid UTF-8 decode to exactly the characters
/// they encode (invalid sequences are replaced, never dropped silently into
/// a failure).
#[verifier::external_body]
fn lossy_decode(bytes: &[u8]) -> (r: String)
    ensures
        r@ == lossy_decode_of(bytes@),
        valid_utf8(bytes@) ==> r@ == decode_utf8(bytes@),
{
    String::from_utf8_lossy(bytes).into_owned()
}

/// Index of the first occurrence of byte `b` in `s` at or after position
/// `i`, or `s.len()` when there is none.
pub open spec fn find_byte_idx(s: Seq<u8>, b: u8, i: int) -> int
    decreases s.len() - i when 0 <= i <= s.len()
{
    if i >= s.len() {
        s.len() as int
    } else if s[i] == b {
        i
    } else {
        find_byte_idx(s, b, i + 1)
    }
}

proof fn lemma_find_byte_idx_unique(s: Seq<u8>, b: u8, i: int, k: int)
    requires
        0 <= i <= k <= s.len(),
        forall|j: int| i <= j < k ==> s[j] != b,
        k == s.len() || s[k] == b,
    ensures
        find_byte_idx(s, b, i) == k,
    decreases k - i,
{
    if i < k {
        lemma_find_byte_idx_unique(s, b, i + 1, k);
    }
}

fn find_byte_from(s: &[u8], b: u8, from: usize) -> (r: usize)
    requires
        from <= s@.len(),
    ensures
        r == find_byte_idx(s@, b, from as int),
        from <= r <= s@.len(),
        r < s@.len() ==> s@[r as int] == b,
{
    let n = s.len();
    let mut i: usize = from;
    while i < n
        invariant
            from <= i <= n,
            n == s@.len(),
            forall|j: int| from <= j < i ==> s@[j] != b,
        decreases n - i,
    {
        if *slice_index_get(s, i) == b {
            proof {
                lemma_find_byte_idx_unique(s@, b, from as int, i as int);
            }
            return i;
        }
        i += 1;
    }
    proof {
        lemma_find_byte_idx_unique(s@, b, from as int, n as int);
    }
    n
}

/// The path that [`extract_path`] recovers from a raw request buffer: the
/// bytes strictly between the first two space bytes, decoded leniently and
/// trimmed of whitespace; `"/"` when the buffer has fewer than two spaces.
pub open spec fn extract_path_spec(b: Seq<u8>) -> Seq<char> {
    let i = find_byte_idx(b, 32, 0);
    if i == b.len() {
        "/"@
    } else {
        let j = find_byte_idx(b, 32, i + 1);
        if j == b.len() {
            "/"@
        } else {
            trim_spec(lossy_decode_of(b.subrange(i + 1, j)))
        }
    }
}

/// Recovers the request path from a raw, possibly truncated or zero-padded,
/// request buffer: the token between the first two spaces (the method ends
/// at the first space, the path at the second), trimmed; `"/"` when either
/// space is missing.
pub fn extract_path(buffer: &[u8]) -> (r: String)
    ensures
        r@ == extract_path_spec(buffer@),
{
    let n = buffer.len();
    let i = find_byte_from(buffer, 32, 0);
    if i == n {
        return String::from_str("/");
    }
    let j = find_byte_from(buffer, 32, i + 1);
    if j == n {
        return String::from_str("/");
    }
    let sub = slice_subrange(buffer, i + 1, j);
    let decoded = lossy_decode(sub);
    let trimmed = trim(decoded.as_str());
    trimmed.to_owned()
}

} // verus!
