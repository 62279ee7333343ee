use vstd::prelude::*;

use axum::http::HeaderMap;

verus! {

#[verifier::external_type_specification]
#[verifier::external_body]
#[verifier::reject_recursive_types(T)]
pub struct ExHeaderMap<T>(axum::http::HeaderMap<T>);

#[verifier::external_type_specification]
#[verifier::external_body]
pub struct ExHeaderValue(axum::http::HeaderValue);

/// For each header name held, the bytes of the first value under it. The map
/// stores names as valid header names in lower case.
pub uninterp spec fn header_values(h: HeaderMap) -> Map<Seq<char>, Seq<u8>>;

/// `c` with an ASCII capital letter replaced by its small letter.
pub open spec fn ascii_lower_char(c: char) -> char {
    if 'A' <= c && c <= 'Z' {
        ((c as u32) + 32) as char
    } else {
        c
    }
}

pub open spec fn ascii_lower(s: Seq<char>) -> Seq<char> {
    s.map_values(|c: char| ascii_lower_char(c))
}

/// The first value under header name `key`, whatever the case of its letters.
pub open spec fn header_lookup(h: HeaderMap, key: Seq<char>) -> Option<Seq<u8>> {
    let m = header_values(h);
    let k = ascii_lower(key);
    if m.contains_key(k) {
        Some(m[k])
    } else {
        None
    }
}

/// A byte that a header value may hold and still read as text: a visible
/// ASCII character, a space or a tab.
pub open spec fn is_visible_ascii(b: u8) -> bool {
    (32 <= b && b < 127) || b == 9
}

/// Every byte of `v` is visible ASCII, so the value reads as text.
pub open spec fn all_visible_ascii(v: Seq<u8>) -> bool {
    forall|i: int| 0 <= i < v.len() ==> is_visible_ascii(#[trigger] v[i])
}

/// The characters of bytes that are all ASCII.
pub open spec fn ascii_chars(b: Seq<u8>) -> Seq<char> {
    b.map_values(|x: u8| x as char)
}

/// Relies on http's `HeaderMap::get`: the key is matched with ASCII capitals
/// folded to small letters (a key that is no valid header name finds
/// nothing), and the first value under it comes back.
#[verifier::external_body]
fn header_bytes(h: &HeaderMap, key: &str) -> (r: Option<Vec<u8>>)
    ensures
        match r {
            Some(v) => header_values(*h).contains_key(ascii_lower(key@))
                && header_values(*h)[ascii_lower(key@)] == v@,
            None => !header_values(*h).contains_key(ascii_lower(key@)),
        },
{
    h.get(key).map(|v| v.as_bytes().to_vec())
}

/// Relies on std's `String::from_utf8_lossy`: bytes below 128 are valid UTF-8
/// and each stands for one character.
#[verifier::external_body]
fn ascii_string(b: &Vec<u8>) -> (r: String)
    requires
        forall|i: int| 0 <= i < b@.len() ==> b@[i] < 128,
    ensures
        r@ == ascii_chars(b@),
{
    String::from_utf8_lossy(b).into_owned()
}

/// The text of the first value under header name `key`, whatever the case of
/// its letters; `None` when the header is absent or its value is not visible
/// ASCII text.
pub fn header_text(h: &HeaderMap, key: &str) -> (r: Option<String>)
    ensures
        match header_lookup(*h, key@) {
            Some(v) => if all_visible_ascii(v) {
                r matches Some(t) && t@ == ascii_chars(v)
            } else {
                r is None
            },
            None => r is None,
        },
{
    match header_bytes(h, key) {
        None => None,
        Some(v) => {
            let mut i: usize = 0;
            while i < v.len()
                invariant
                    header_lookup(*h, key@) == Some(v@),
                    i <= v@.len(),
                    forall|j: int| 0 <= j < i ==> is_visible_ascii(#[trigger] v@[j]),
                decreases v@.len() - i,
            {
                let b = v[i];
                if !((32 <= b && b < 127) || b == 9) {
                    assert(!is_visible_ascii(v@[i as int]));
                    assert(!all_visible_ascii(v@));
                    return None;
                }
                i = i + 1;
            }
            Some(ascii_string(&v))
        },
    }
}

/// Header names match whatever the case of their letters: the hash header
/// written `Gitsync-Hash` and written `gitsync-hash` find the same value.
pub proof fn lemma_hash_header_case_insensitive(h: HeaderMap)
    ensures
        header_lookup(h, "Gitsync-Hash"@) == header_lookup(h, "gitsync-hash"@),
{
    reveal_strlit("Gitsync-Hash");
    reveal_strlit("gitsync-hash");
    assert(ascii_lower("Gitsync-Hash"@) =~= ascii_lower("gitsync-hash"@));
}

} // verus!
