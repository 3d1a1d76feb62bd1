//! The device-configuration bag passthrough: which GUIDs are accepted,
//! where the bag is fetched from, and the property list cut out of the
//! response.
use vstd::prelude::*;
use crate::security::{is_ascii_alnum, slice};
use crate::text::{chars_of, string_of};

verus! {

/// Overall time allowed for the upstream bag request, in seconds.
pub const BAG_TIMEOUT_SECS: u64 = 30;

/// Largest bag response relayed, in bytes.
pub const BAG_MAX_RESPONSE_BYTES: usize = 1048576;

/// Longest GUID accepted.
pub const MAX_GUID_LEN: usize = 64;

/// A GUID is one to 64 ASCII letters and digits.
pub open spec fn is_valid_guid(g: Seq<char>) -> bool {
    0 < g.len() <= MAX_GUID_LEN && forall|i: int| 0 <= i < g.len() ==> is_ascii_alnum(#[trigger] g[i])
}

/// Whether a client's GUID is acceptable.
pub fn validate_guid(guid: &str) -> (r: bool)
    ensures
        r == is_valid_guid(guid@),
{
    let cs = chars_of(guid);
    if cs.len() == 0 || cs.len() > MAX_GUID_LEN {
        return false;
    }
    let mut i: usize = 0;
    while i < cs.len()
        invariant
            cs@ == guid@,
            i <= cs@.len(),
            forall|k: int| 0 <= k < i ==> is_ascii_alnum(#[trigger] cs@[k]),
        decreases cs.len() - i,
    {
        let c = cs[i];
        if !(('a' <= c && c <= 'z') || ('A' <= c && c <= 'Z') || ('0' <= c && c <= '9')) {
            return false;
        }
        i = i + 1;
    }
    true
}

/// The bag's URL for a GUID.
pub fn bag_url(guid: &str) -> (r: String)
    ensures
        r@ == "https://init.itunes.apple.com/bag.xml?guid="@ + guid@,
{
    let mut s = String::from_str("https://init.itunes.apple.com/bag.xml?guid=");
    s.append(guid);
    s
}

/// `p` occurs in `s` at `i`.
pub open spec fn occurs_at(s: Seq<char>, p: Seq<char>, i: int) -> bool {
    0 <= i && i + p.len() <= s.len() && s.subrange(i, i + p.len()) == p
}

/// `i` is the first position at or after `from` where `p` occurs in `s`.
pub open spec fn first_from(s: Seq<char>, p: Seq<char>, from: int, i: int) -> bool {
    from <= i && occurs_at(s, p, i) && forall|j: int| from <= j < i ==> !occurs_at(s, p, j)
}

/// The property list inside a bag response: from the first `<plist` to
/// the first `</plist>` after it, inclusive.
pub open spec fn bag_plist(s: Seq<char>, r: Option<Seq<char>>) -> bool {
    match r {
        Some(x) => exists|a: int, e: int| first_from(s, "<plist"@, 0, a) && first_from(s, "</plist>"@, a, e)
            && x == s.subrange(a, e + 8),
        None => !(exists|a: int, e: int| first_from(s, "<plist"@, 0, a) && first_from(s, "</plist>"@, a, e)),
    }
}

fn occurs_exec(s: &Vec<char>, p: &Vec<char>, i: usize) -> (r: bool)
    ensures
        r == occurs_at(s@, p@, i as int),
{
    if p.len() > s.len() || i > s.len() - p.len() {
        return false;
    }
    let mut k: usize = 0;
    while k < p.len()
        invariant
            i + p@.len() <= s@.len(),
            s@.len() <= usize::MAX,
            k <= p@.len(),
            forall|m: int| 0 <= m < k ==> s@[i + m] == p@[m],
        decreases p.len() - k,
    {
        if s[i + k] != p[k] {
            assert(s@.subrange(i as int, i + p@.len())[k as int] != p@[k as int]);
            return false;
        }
        k = k + 1;
    }
    assert(s@.subrange(i as int, i + p@.len()) =~= p@);
    true
}

fn find_from(s: &Vec<char>, p: &Vec<char>, from: usize) -> (r: Option<usize>)
    ensures
        r matches Some(i) ==> first_from(s@, p@, from as int, i as int),
        r is None ==> forall|j: int| from <= j ==> !occurs_at(s@, p@, j),
{
    if from > s.len() {
        return None;
    }
    let mut i: usize = from;
    while i < s.len()
        invariant
            from <= i <= s@.len(),
            forall|j: int| from <= j < i ==> !occurs_at(s@, p@, j),
        decreases s.len() - i,
    {
        if occurs_exec(s, p, i) {
            return Some(i);
        }
        i = i + 1;
    }
    if occurs_exec(s, p, i) {
        return Some(i);
    }
    None
}

/// Cuts the property list out of a bag response.
pub fn extract_plist(body: &str) -> (r: Option<String>)
    ensures
        bag_plist(body@, match r { Some(x) => Some(x@), None => None }),
{
    let s = chars_of(body);
    let open = chars_of("<plist");
    let close = chars_of("</plist>");
    proof {
        reveal_strlit("</plist>");
    }
    match find_from(&s, &open, 0) {
        None => {
            assert(!(exists|a: int, e: int| first_from(s@, "<plist"@, 0, a) && first_from(s@, "</plist>"@, a, e)));
            None
        },
        Some(a) => match find_from(&s, &close, a) {
            None => {
                assert(!(exists|x: int, e: int| first_from(s@, "<plist"@, 0, x) && first_from(s@, "</plist>"@, x, e))) by {
                    if exists|x: int, e: int| first_from(s@, "<plist"@, 0, x) && first_from(s@, "</plist>"@, x, e) {
                        let (x, e) = choose|x: int, e: int| first_from(s@, "<plist"@, 0, x) && first_from(s@, "</plist>"@, x, e);
                        assert(x == a as int);
                    }
                }
                None
            },
            Some(e) => {
                assert(close@.len() == 8);
                let n: usize = s.len();
                assert(e + 8 <= n);
                let cut = slice(&s, a, e + 8);
                Some(string_of(&cut))
            },
        },
    }
}

} // verus!
