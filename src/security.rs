//! URL policy, filename sanitising, path containment and speed formatting.
use vstd::prelude::*;
use crate::text::{decimal, push_decimal, push_str, string_of, chars_of};

verus! {

/// Largest archive accepted, by declared length and by running total (4 GiB).
pub const MAX_DOWNLOAD_SIZE: u64 = 4294967296;

/// Longest sanitised file name, in characters.
pub const MAX_FILENAME_LEN: usize = 200;

// ---------------------------------------------------------------------------
// File names

pub open spec fn is_ascii_alnum(c: char) -> bool {
    ('a' <= c && c <= 'z') || ('A' <= c && c <= 'Z') || ('0' <= c && c <= '9')
}

/// Characters a sanitised file name may hold: `[A-Za-z0-9._-]`.
pub open spec fn is_name_char(c: char) -> bool {
    is_ascii_alnum(c) || c == '.' || c == '_' || c == '-'
}

pub open spec fn all_name_chars(s: Seq<char>) -> bool {
    forall|i: int| 0 <= i < s.len() ==> is_name_char(#[trigger] s[i])
}

/// Keeps the allowed characters and turns each run of other characters
/// into one underscore.
pub open spec fn squash(s: Seq<char>) -> Seq<char>
    decreases s.len(),
{
    if s.len() == 0 {
        s
    } else {
        let prev = squash(s.drop_last());
        if is_name_char(s.last()) {
            prev.push(s.last())
        } else if s.len() >= 2 && !is_name_char(s[s.len() - 2]) {
            prev
        } else {
            prev.push('_')
        }
    }
}

/// Drops leading underscores.
pub open spec fn trim_start(s: Seq<char>) -> Seq<char>
    decreases s.len(),
{
    if s.len() > 0 && s[0] == '_' {
        trim_start(s.drop_first())
    } else {
        s
    }
}

/// Drops trailing underscores.
pub open spec fn trim_end(s: Seq<char>) -> Seq<char>
    decreases s.len(),
{
    if s.len() > 0 && s.last() == '_' {
        trim_end(s.drop_last())
    } else {
        s
    }
}

/// The sanitised form of a file name.
pub open spec fn sanitized(s: Seq<char>) -> Seq<char> {
    let t = trim_start(trim_end(squash(s)));
    trim_end(if t.len() > MAX_FILENAME_LEN { t.take(MAX_FILENAME_LEN as int) } else { t })
}

/// Keeps `[A-Za-z0-9._-]`, turns every run of other characters into one
/// underscore, strips leading and trailing underscores and caps the length.
pub fn sanitize_filename(s: &str) -> (r: String)
    ensures
        r@ == sanitized(s@),
        all_name_chars(r@),
        r@.len() <= MAX_FILENAME_LEN,
{
    let cs = chars_of(s);
    // squash
    let mut sq: Vec<char> = Vec::new();
    let mut i: usize = 0;
    while i < cs.len()
        invariant
            cs@ == s@,
            i <= cs@.len(),
            sq@ == squash(cs@.take(i as int)),
        decreases cs.len() - i,
    {
        let c = cs[i];
        assert(cs@.take(i + 1).drop_last() =~= cs@.take(i as int));
        if is_name_char_exec(c) {
            sq.push(c);
        } else if i >= 1 && !is_name_char_exec(cs[i - 1]) {
        } else {
            sq.push('_');
        }
        i = i + 1;
    }
    assert(cs@.take(cs@.len() as int) =~= cs@);
    // trim the end
    let mut hi: usize = sq.len();
    assert(sq@.take(hi as int) =~= sq@);
    while hi > 0 && sq[hi - 1] == '_'
        invariant
            hi <= sq@.len(),
            trim_end(sq@) == trim_end(sq@.take(hi as int)),
        decreases hi,
    {
        assert(sq@.take(hi as int).drop_last() =~= sq@.take(hi - 1));
        hi = hi - 1;
    }
    assert(trim_end(sq@.take(hi as int)) == sq@.take(hi as int));
    // trim the start
    let mut lo: usize = 0;
    while lo < hi && sq[lo] == '_'
        invariant
            lo <= hi <= sq@.len(),
            trim_start(trim_end(sq@)) == trim_start(sq@.subrange(lo as int, hi as int)),
        decreases hi - lo,
    {
        assert(sq@.subrange(lo as int, hi as int).drop_first() =~= sq@.subrange(lo + 1, hi as int));
        lo = lo + 1;
    }
    assert(trim_start(sq@.subrange(lo as int, hi as int)) == sq@.subrange(lo as int, hi as int));
    // cap the length, then trim the end again
    let mut end: usize = if hi - lo > MAX_FILENAME_LEN { lo + MAX_FILENAME_LEN } else { hi };
    let ghost t = sq@.subrange(lo as int, hi as int);
    assert(sq@.subrange(lo as int, end as int) =~= (if t.len() > MAX_FILENAME_LEN { t.take(MAX_FILENAME_LEN as int) } else { t }));
    while end > lo && sq[end - 1] == '_'
        invariant
            lo <= end <= hi <= sq@.len(),
            sanitized(s@) == trim_end(sq@.subrange(lo as int, end as int)),
        decreases end,
    {
        assert(sq@.subrange(lo as int, end as int).drop_last() =~= sq@.subrange(lo as int, end - 1));
        end = end - 1;
    }
    assert(trim_end(sq@.subrange(lo as int, end as int)) == sq@.subrange(lo as int, end as int));
    let mut out: Vec<char> = Vec::new();
    let mut k: usize = lo;
    while k < end
        invariant
            lo <= k <= end <= sq@.len(),
            out@ == sq@.subrange(lo as int, k as int),
        decreases end - k,
    {
        out.push(sq[k]);
        k = k + 1;
        assert(out@ =~= sq@.subrange(lo as int, k as int));
    }
    proof {
        lemma_sanitized_chars(s@);
    }
    string_of(&out)
}

fn is_name_char_exec(c: char) -> (r: bool)
    ensures
        r == is_name_char(c),
{
    ('a' <= c && c <= 'z') || ('A' <= c && c <= 'Z') || ('0' <= c && c <= '9') || c == '.' || c == '_' || c == '-'
}

proof fn lemma_squash_chars(s: Seq<char>)
    ensures
        all_name_chars(squash(s)),
    decreases s.len(),
{
    if s.len() > 0 {
        lemma_squash_chars(s.drop_last());
    }
}

proof fn lemma_squash_fixed(s: Seq<char>)
    requires
        all_name_chars(s),
    ensures
        squash(s) == s,
    decreases s.len(),
{
    if s.len() > 0 {
        lemma_squash_fixed(s.drop_last());
        assert(s.drop_last().push(s.last()) =~= s);
    }
}

/// `trim_end(s)` is a prefix of `s` that does not end in an underscore.
proof fn lemma_trim_end(s: Seq<char>)
    ensures
        trim_end(s).len() <= s.len(),
        trim_end(s) == s.take(trim_end(s).len() as int),
        trim_end(s).len() == 0 || trim_end(s).last() != '_',
    decreases s.len(),
{
    if s.len() > 0 && s.last() == '_' {
        lemma_trim_end(s.drop_last());
        assert(s.drop_last().take(trim_end(s).len() as int) =~= s.take(trim_end(s).len() as int));
    } else {
        assert(s.take(s.len() as int) =~= s);
    }
}

/// `trim_start(s)` is a suffix of `s` that does not start with an underscore.
proof fn lemma_trim_start(s: Seq<char>)
    ensures
        trim_start(s).len() <= s.len(),
        trim_start(s) == s.skip(s.len() - trim_start(s).len()),
        trim_start(s).len() == 0 || trim_start(s)[0] != '_',
    decreases s.len(),
{
    if s.len() > 0 && s[0] == '_' {
        lemma_trim_start(s.drop_first());
        assert(s.drop_first().skip(s.len() - 1 - trim_start(s).len()) =~= s.skip(s.len() - trim_start(s).len()));
    } else {
        assert(s.skip(0) =~= s);
    }
}

proof fn lemma_sanitized_chars(s: Seq<char>)
    ensures
        all_name_chars(sanitized(s)),
        sanitized(s).len() <= MAX_FILENAME_LEN,
        sanitized(s).len() == 0 || (sanitized(s)[0] != '_' && sanitized(s).last() != '_'),
{
    let q = squash(s);
    lemma_squash_chars(s);
    lemma_trim_end(q);
    let e = trim_end(q);
    lemma_trim_start(e);
    let t = trim_start(e);
    let c = if t.len() > MAX_FILENAME_LEN { t.take(MAX_FILENAME_LEN as int) } else { t };
    lemma_trim_end(c);
    let r = trim_end(c);
    assert(all_name_chars(r)) by {
        assert forall|i: int| 0 <= i < r.len() implies is_name_char(#[trigger] r[i]) by {
            assert(r[i] == c[i]);
            assert(c[i] == t[i]);
            assert(t[i] == e[e.len() - t.len() + i]);
            assert(e[e.len() - t.len() + i] == q[e.len() - t.len() + i]);
        }
    }
    if r.len() > 0 {
        assert(r[0] == c[0]);
    }
}

/// Sanitising is idempotent: a sanitised name is left as it is.
pub proof fn lemma_sanitize_idempotent(s: Seq<char>)
    ensures
        sanitized(sanitized(s)) == sanitized(s),
        all_name_chars(sanitized(s)),
{
    let r = sanitized(s);
    lemma_sanitized_chars(s);
    lemma_squash_fixed(r);
    if r.len() == 0 {
        assert(trim_end(r) == r);
        assert(trim_start(r) == r);
    } else {
        assert(trim_end(r) == r);
        assert(trim_start(r) == r);
        assert(trim_end(r) == r);
    }
}


// ---------------------------------------------------------------------------
// Path containment

/// Splits `s` at `sep`: the non-empty pieces seen so far, and the one
/// being read.
pub open spec fn scan(s: Seq<char>, sep: char) -> (Seq<Seq<char>>, Seq<char>)
    decreases s.len(),
{
    if s.len() == 0 {
        (Seq::empty(), Seq::empty())
    } else {
        let (done, cur) = scan(s.drop_last(), sep);
        if s.last() == sep {
            (if cur.len() > 0 { done.push(cur) } else { done }, Seq::empty())
        } else {
            (done, cur.push(s.last()))
        }
    }
}

/// The non-empty pieces of `s` between occurrences of `sep`, in order.
pub open spec fn pieces(s: Seq<char>, sep: char) -> Seq<Seq<char>> {
    let (done, cur) = scan(s, sep);
    if cur.len() > 0 { done.push(cur) } else { done }
}

/// The non-empty components of a path, in order.
pub open spec fn parts(s: Seq<char>) -> Seq<Seq<char>> {
    pieces(s, '/')
}

pub open spec fn is_absolute(s: Seq<char>) -> bool {
    s.len() > 0 && s[0] == '/'
}

/// A path holds no `..` component.
pub open spec fn is_plain(s: Seq<char>) -> bool {
    forall|i: int| 0 <= i < parts(s).len() ==> #[trigger] parts(s)[i] != ".."@
}

/// `b`'s components are a prefix of `p`'s.
pub open spec fn is_component_prefix(b: Seq<char>, p: Seq<char>) -> bool {
    parts(b).len() <= parts(p).len() && parts(p).take(parts(b).len() as int) == parts(b)
}

/// Containment of resolved paths: both are plain paths of one kind
/// (absolute or relative) and `b`'s components begin `p`'s.
pub open spec fn within(p: Seq<char>, b: Seq<char>) -> bool {
    is_absolute(p) == is_absolute(b) && is_plain(p) && is_plain(b) && is_component_prefix(b, p)
}

/// The components of a path.
fn path_parts(s: &str) -> (r: Vec<Vec<char>>)
    ensures
        r@.len() == parts(s@).len(),
        forall|i: int| 0 <= i < r@.len() ==> (#[trigger] r@[i])@ == parts(s@)[i],
{
    let cs = chars_of(s);
    split_pieces(&cs, '/')
}

/// The non-empty pieces of `cs` between occurrences of `sep`.
pub(crate) fn split_pieces(cs: &Vec<char>, sep: char) -> (r: Vec<Vec<char>>)
    ensures
        r@.len() == pieces(cs@, sep).len(),
        forall|i: int| 0 <= i < r@.len() ==> (#[trigger] r@[i])@ == pieces(cs@, sep)[i],
{
    let mut done: Vec<Vec<char>> = Vec::new();
    let mut cur: Vec<char> = Vec::new();
    let mut i: usize = 0;
    while i < cs.len()
        invariant
            i <= cs@.len(),
            done@.len() == scan(cs@.take(i as int), sep).0.len(),
            forall|k: int| 0 <= k < done@.len() ==> (#[trigger] done@[k])@ == scan(cs@.take(i as int), sep).0[k],
            cur@ == scan(cs@.take(i as int), sep).1,
        decreases cs.len() - i,
    {
        let c = cs[i];
        assert(cs@.take(i + 1).drop_last() =~= cs@.take(i as int));
        if c == sep {
            if cur.len() > 0 {
                done.push(cur);
            }
            cur = Vec::new();
        } else {
            cur.push(c);
        }
        i = i + 1;
    }
    assert(cs@.take(cs@.len() as int) =~= cs@);
    if cur.len() > 0 {
        done.push(cur);
    }
    done
}

fn same_chars(a: &Vec<char>, b: &Vec<char>) -> (r: bool)
    ensures
        r == (a@ == b@),
{
    if a.len() != b.len() {
        return false;
    }
    let mut i: usize = 0;
    while i < a.len()
        invariant
            a@.len() == b@.len(),
            i <= a@.len(),
            forall|k: int| 0 <= k < i ==> a@[k] == b@[k],
        decreases a.len() - i,
    {
        if a[i] != b[i] {
            return false;
        }
        i = i + 1;
    }
    assert(a@ =~= b@);
    true
}

fn is_dot_part(v: &Vec<char>) -> (r: bool)
    ensures
        r == (v@ == ".."@),
{
    proof {
        reveal_strlit("..");
    }
    if v.len() == 2 && v[0] == '.' && v[1] == '.' {
        assert(v@ =~= ".."@);
        true
    } else {
        assert(v@ != ".."@) by {
            if v@ == ".."@ {
                assert(v@[0] == ".."@[0] && v@[1] == ".."@[1]);
            }
        }
        false
    }
}

fn has_dot_part(ps: &Vec<Vec<char>>) -> (r: bool)
    ensures
        r == exists|i: int| 0 <= i < ps@.len() && #[trigger] ps@[i]@ == ".."@,
{
    let mut i: usize = 0;
    while i < ps.len()
        invariant
            i <= ps@.len(),
            forall|k: int| 0 <= k < i ==> #[trigger] ps@[k]@ != ".."@,
        decreases ps.len() - i,
    {
        if is_dot_part(&ps[i]) {
            return true;
        }
        i = i + 1;
    }
    false
}

/// Whether the resolved path `candidate` lies at or below the resolved
/// directory `base`, comparing whole components. A path that still holds
/// a `..` component is never inside.
pub fn path_within_base(candidate: &str, base: &str) -> (r: bool)
    ensures
        r == within(candidate@, base@),
{
    let p = path_parts(candidate);
    let b = path_parts(base);
    let pabs = candidate.unicode_len() > 0 && candidate.get_char(0) == '/';
    let babs = base.unicode_len() > 0 && base.get_char(0) == '/';
    if pabs != babs {
        return false;
    }
    if has_dot_part(&p) {
        assert(!is_plain(candidate@)) by {
            let i = choose|i: int| 0 <= i < p@.len() && #[trigger] p@[i]@ == ".."@;
            assert(parts(candidate@)[i] == p@[i]@);
        }
        return false;
    }
    if has_dot_part(&b) {
        assert(!is_plain(base@)) by {
            let i = choose|i: int| 0 <= i < b@.len() && #[trigger] b@[i]@ == ".."@;
            assert(parts(base@)[i] == b@[i]@);
        }
        return false;
    }
    assert(is_plain(candidate@)) by {
        assert forall|i: int| 0 <= i < parts(candidate@).len() implies #[trigger] parts(candidate@)[i] != ".."@ by {
            assert(p@[i]@ == parts(candidate@)[i]);
        }
    }
    assert(is_plain(base@)) by {
        assert forall|i: int| 0 <= i < parts(base@).len() implies #[trigger] parts(base@)[i] != ".."@ by {
            assert(b@[i]@ == parts(base@)[i]);
        }
    }
    if b.len() > p.len() {
        return false;
    }
    let mut i: usize = 0;
    while i < b.len()
        invariant
            b@.len() <= p@.len(),
            i <= b@.len(),
            b@.len() == parts(base@).len(),
            p@.len() == parts(candidate@).len(),
            forall|k: int| 0 <= k < b@.len() ==> (#[trigger] b@[k])@ == parts(base@)[k],
            forall|k: int| 0 <= k < p@.len() ==> (#[trigger] p@[k])@ == parts(candidate@)[k],
            forall|k: int| 0 <= k < i ==> parts(candidate@)[k] == parts(base@)[k],
        decreases b.len() - i,
    {
        if !same_chars(&p[i], &b[i]) {
            assert(parts(candidate@).take(parts(base@).len() as int)[i as int] != parts(base@)[i as int]);
            return false;
        }
        i = i + 1;
    }
    assert(parts(candidate@).take(parts(base@).len() as int) =~= parts(base@));
    true
}

/// Position of the last `/` in `s`, or -1.
pub open spec fn last_slash(s: Seq<char>) -> int
    decreases s.len(),
{
    if s.len() == 0 {
        -1
    } else if s.last() == '/' {
        s.len() - 1
    } else {
        last_slash(s.drop_last())
    }
}

/// The directory part of a path: everything before its last `/`.
pub open spec fn parent(s: Seq<char>) -> Seq<char> {
    if last_slash(s) > 0 { s.take(last_slash(s)) } else { Seq::empty() }
}

/// The `n`-th ancestor of a path (the path itself for zero).
pub open spec fn ancestor(p: Seq<char>, n: nat) -> Seq<char>
    decreases n,
{
    if n == 0 { p } else { parent(ancestor(p, (n - 1) as nat)) }
}

/// `d` lies inside `root` and is not `root` itself.
pub open spec fn strictly_inside(d: Seq<char>, root: Seq<char>) -> bool {
    within(d, root) && parts(d).len() > parts(root).len()
}

proof fn lemma_last_slash(s: Seq<char>)
    ensures
        -1 <= last_slash(s) < s.len(),
        last_slash(s) >= 0 ==> s[last_slash(s)] == '/',
        forall|i: int| last_slash(s) < i < s.len() ==> s[i] != '/',
    decreases s.len(),
{
    if s.len() > 0 && s.last() != '/' {
        lemma_last_slash(s.drop_last());
        assert forall|i: int| last_slash(s) < i < s.len() implies s[i] != '/' by {
            if i < s.len() - 1 {
                assert(s.drop_last()[i] == s[i]);
            }
        }
    }
}

fn parent_exec(s: &Vec<char>) -> (r: Vec<char>)
    ensures
        r@ == parent(s@),
        s@.len() > 0 ==> r@.len() < s@.len(),
{
    proof {
        lemma_last_slash(s@);
    }
    let mut i: usize = s.len();
    assert(s@.take(i as int) =~= s@);
    while i > 0 && s[i - 1] != '/'
        invariant
            i <= s@.len(),
            forall|k: int| i <= k < s@.len() ==> s@[k] != '/',
            last_slash(s@) == last_slash(s@.take(i as int)),
        decreases i,
    {
        assert(s@.take(i as int).drop_last() =~= s@.take(i - 1));
        i = i - 1;
    }
    if i <= 1 {
        assert(last_slash(s@) <= 0) by {
            if i == 1 {
                assert(s@.take(1).last() == '/');
            } else {
                assert(s@.take(0).len() == 0);
            }
        }
        return Vec::new();
    }
    assert(s@.take(i as int).last() == '/');
    let r = slice(s, 0, i - 1);
    r
}

/// The directories to remove after deleting `file_path`, deepest first:
/// its ancestors strictly inside `root`, up to the first that is not
/// (each is removed only while empty).
pub fn dirs_to_prune(file_path: &str, root: &str) -> (r: Vec<String>)
    ensures
        forall|i: int| 0 <= i < r@.len() ==> (#[trigger] r@[i])@ == ancestor(file_path@, (i + 1) as nat)
            && strictly_inside(r@[i]@, root@),
        !strictly_inside(ancestor(file_path@, (r@.len() + 1) as nat), root@),
{
    let root_count = path_parts(root).len();
    let f = chars_of(file_path);
    let mut cur = parent_exec(&f);
    let mut r: Vec<String> = Vec::new();
    assert(ancestor(file_path@, 1) == parent(ancestor(file_path@, 0)));
    loop
        invariant
            root_count == parts(root@).len(),
            f@ == file_path@,
            cur@ == ancestor(file_path@, (r@.len() + 1) as nat),
            forall|i: int| 0 <= i < r@.len() ==> (#[trigger] r@[i])@ == ancestor(file_path@, (i + 1) as nat)
                && strictly_inside(r@[i]@, root@),
        decreases cur@.len(),
    {
        let s = string_of(&cur);
        if !(path_within_base(s.as_str(), root) && path_parts(s.as_str()).len() > root_count) {
            return r;
        }
        let next = parent_exec(&cur);
        r.push(s);
        assert(next@ == ancestor(file_path@, (r@.len() + 1) as nat));
        cur = next;
    }
}

/// What containment promises: the candidate's components begin with the
/// base's; a plain path contains itself; a path that climbs out with `..`
/// is never inside.
pub proof fn lemma_within_base(p: Seq<char>, b: Seq<char>)
    ensures
        within(p, b) ==> is_component_prefix(b, p),
        is_plain(b) ==> within(b, b),
        !is_plain(p) ==> !within(p, b),
{
    if is_plain(b) {
        assert(parts(b).take(parts(b).len() as int) =~= parts(b));
    }
}


// ---------------------------------------------------------------------------
// Hosts and URLs

/// Stop characters, by kind: 0 ends a URL authority, 1 is `:`, 2 is `]`,
/// 3 is `@`, 4 is `/`.
pub open spec fn is_stop(kind: u8, c: char) -> bool {
    if kind == 0 {
        c == '/' || c == '?' || c == '#' || c == '\\'
    } else if kind == 1 {
        c == ':'
    } else if kind == 2 {
        c == ']'
    } else if kind == 3 {
        c == '@'
    } else {
        c == '/'
    }
}

/// Length of the longest prefix of `s` free of stop characters of `kind`.
pub open spec fn span(s: Seq<char>, kind: u8) -> nat
    decreases s.len(),
{
    if s.len() == 0 {
        0
    } else if is_stop(kind, s[0]) {
        0
    } else {
        1 + span(s.drop_first(), kind)
    }
}

proof fn lemma_span(s: Seq<char>, kind: u8, i: int)
    requires
        0 <= i <= s.len(),
        forall|j: int| 0 <= j < i ==> !is_stop(kind, #[trigger] s[j]),
        i == s.len() || is_stop(kind, s[i]),
    ensures
        span(s, kind) == i,
    decreases i,
{
    if i > 0 {
        assert forall|j: int| 0 <= j < i - 1 implies !is_stop(kind, #[trigger] s.drop_first()[j]) by {
            assert(s.drop_first()[j] == s[j + 1]);
        }
        lemma_span(s.drop_first(), kind, i - 1);
    }
}

fn is_stop_exec(kind: u8, c: char) -> (r: bool)
    ensures
        r == is_stop(kind, c),
{
    if kind == 0 {
        c == '/' || c == '?' || c == '#' || c == '\\'
    } else if kind == 1 {
        c == ':'
    } else if kind == 2 {
        c == ']'
    } else if kind == 3 {
        c == '@'
    } else {
        c == '/'
    }
}

pub(crate) fn span_exec(cs: &Vec<char>, kind: u8) -> (r: usize)
    ensures
        r == span(cs@, kind),
        r <= cs@.len(),
{
    let mut i: usize = 0;
    while i < cs.len() && !is_stop_exec(kind, cs[i])
        invariant
            i <= cs@.len(),
            forall|j: int| 0 <= j < i ==> !is_stop(kind, #[trigger] cs@[j]),
        decreases cs.len() - i,
    {
        i = i + 1;
    }
    proof {
        lemma_span(cs@, kind, i as int);
    }
    i
}

pub(crate) fn slice(cs: &Vec<char>, lo: usize, hi: usize) -> (r: Vec<char>)
    requires
        lo <= hi <= cs@.len(),
    ensures
        r@ == cs@.subrange(lo as int, hi as int),
{
    let mut r: Vec<char> = Vec::new();
    let mut i: usize = lo;
    while i < hi
        invariant
            lo <= i <= hi <= cs@.len(),
            r@ == cs@.subrange(lo as int, i as int),
        decreases hi - i,
    {
        r.push(cs[i]);
        i = i + 1;
        assert(r@ =~= cs@.subrange(lo as int, i as int));
    }
    r
}

/// `c` matches the lower-case letter or other character `d`, ignoring ASCII case.
pub open spec fn ci_char(c: char, d: char) -> bool {
    c == d || ('a' <= d && d <= 'z' && c as u32 + 32 == d as u32)
}

/// `s` equals the lower-case text `lit`, ignoring ASCII case.
pub open spec fn ci_eq(s: Seq<char>, lit: Seq<char>) -> bool {
    s.len() == lit.len() && forall|i: int| 0 <= i < s.len() ==> ci_char(#[trigger] s[i], lit[i])
}

/// `s` ends with the lower-case text `lit`, ignoring ASCII case.
pub open spec fn ci_ends_with(s: Seq<char>, lit: Seq<char>) -> bool {
    s.len() >= lit.len() && ci_eq(s.skip(s.len() - lit.len()), lit)
}

fn ci_char_exec(c: char, d: char) -> (r: bool)
    ensures
        r == ci_char(c, d),
{
    c == d || ('a' <= d && d <= 'z' && (c as u32) + 32 == d as u32)
}

fn ci_eq_exec(s: &Vec<char>, lit: &str) -> (r: bool)
    ensures
        r == ci_eq(s@, lit@),
{
    let l = chars_of(lit);
    assert(s@.skip(0) =~= s@);
    ci_eq_at(s, 0, &l)
}

/// Whether `s` from `start` on equals `l`, ignoring ASCII case.
fn ci_eq_at(s: &Vec<char>, start: usize, l: &Vec<char>) -> (r: bool)
    requires
        start <= s@.len(),
    ensures
        r == ci_eq(s@.skip(start as int), l@),
{
    if s.len() - start != l.len() {
        return false;
    }
    let mut i: usize = 0;
    while i < l.len()
        invariant
            s@.len() - start == l@.len(),
            start <= s@.len() <= usize::MAX,
            i <= l@.len(),
            forall|k: int| 0 <= k < i ==> ci_char(#[trigger] s@.skip(start as int)[k], l@[k]),
        decreases l.len() - i,
    {
        assert(s@.skip(start as int)[i as int] == s@[start + i]);
        if !ci_char_exec(s[start + i], l[i]) {
            return false;
        }
        i = i + 1;
    }
    true
}

fn ci_ends_with_exec(s: &Vec<char>, lit: &str) -> (r: bool)
    ensures
        r == ci_ends_with(s@, lit@),
{
    let l = chars_of(lit);
    if s.len() < l.len() {
        return false;
    }
    ci_eq_at(s, s.len() - l.len(), &l)
}

pub open spec fn is_hex_digit(c: char) -> bool {
    ('0' <= c && c <= '9') || ('a' <= c && c <= 'f') || ('A' <= c && c <= 'F')
}

pub open spec fn all_digits(s: Seq<char>) -> bool {
    s.len() > 0 && forall|i: int| 0 <= i < s.len() ==> crate::text::is_digit(#[trigger] s[i])
}

/// A piece of a dotted quad: one to three digits, at most 255.
pub open spec fn is_octet(s: Seq<char>) -> bool {
    all_digits(s) && s.len() <= 3 && crate::text::decimal_value(s) <= 255
}

/// An IPv4 literal in the private, loopback, link-local or unspecified
/// ranges (first two octets `a`, `b`).
pub open spec fn is_reserved_v4(a: nat, b: nat) -> bool {
    a == 0 || a == 10 || a == 127 || (a == 169 && b == 254) || (a == 172 && 16 <= b && b <= 31) || (a == 192 && b == 168)
}

/// A host whose last label starts with a digit is read as an IPv4 literal.
pub open spec fn looks_numeric(h: Seq<char>) -> bool {
    let ls = pieces(h, '.');
    ls.len() > 0 && ls.last().len() > 0 && crate::text::is_digit(ls.last()[0])
}

/// A numeric host is acceptable only as a dotted quad outside the reserved ranges.
pub open spec fn is_public_v4(h: Seq<char>) -> bool {
    let ls = pieces(h, '.');
    ls.len() == 4 && is_octet(ls[0]) && is_octet(ls[1]) && is_octet(ls[2]) && is_octet(ls[3])
        && !is_reserved_v4(crate::text::decimal_value(ls[0]), crate::text::decimal_value(ls[1]))
}

/// An IPv6 address (without brackets) in the global unicast range
/// `2000::/3`: its first group has four hex digits and starts with 2 or 3.
pub open spec fn is_global_v6(a: Seq<char>) -> bool {
    a.len() >= 5 && (a[0] == '2' || a[0] == '3') && is_hex_digit(a[1]) && is_hex_digit(a[2])
        && is_hex_digit(a[3]) && a[4] == ':'
}

/// Hosts a relay must never reach: local names, non-global IPv6 literals
/// and numeric hosts that are not public dotted quads. An IPv6 literal is
/// given with brackets (in URLs) or bare (it holds a colon).
pub open spec fn is_blocked_host(h: Seq<char>) -> bool {
    if h.len() == 0 {
        true
    } else if ci_eq(h, "localhost"@) || ci_ends_with(h, ".localhost"@) || ci_ends_with(h, ".local"@) {
        true
    } else if h[0] == '[' {
        !(h.len() >= 2 && h.last() == ']' && is_global_v6(h.subrange(1, h.len() - 1)))
    } else if span(h, 1) < h.len() {
        !is_global_v6(h)
    } else if looks_numeric(h) {
        !is_public_v4(h)
    } else {
        false
    }
}

fn all_digits_exec(s: &Vec<char>) -> (r: bool)
    ensures
        r == all_digits(s@),
{
    if s.len() == 0 {
        return false;
    }
    let mut i: usize = 0;
    while i < s.len()
        invariant
            i <= s@.len(),
            forall|k: int| 0 <= k < i ==> crate::text::is_digit(#[trigger] s@[k]),
        decreases s.len() - i,
    {
        if !('0' <= s[i] && s[i] <= '9') {
            return false;
        }
        i = i + 1;
    }
    true
}

/// The value of one to three digits.
fn small_value(s: &Vec<char>) -> (r: u64)
    requires
        all_digits(s@),
        s@.len() <= 3,
    ensures
        r == crate::text::decimal_value(s@),
{
    let mut v: u64 = 0;
    let mut i: usize = 0;
    while i < s.len()
        invariant
            all_digits(s@),
            s@.len() <= 3,
            i <= s@.len(),
            v == crate::text::decimal_value(s@.take(i as int)),
            v < 1000,
            i == 0 ==> v == 0,
            i == 1 ==> v < 10,
            i == 2 ==> v < 100,
        decreases s.len() - i,
    {
        assert(s@.take(i + 1).drop_last() =~= s@.take(i as int));
        assert(crate::text::is_digit(s@[i as int]));
        v = v * 10 + (s[i] as u32 - '0' as u32) as u64;
        i = i + 1;
    }
    assert(s@.take(s@.len() as int) =~= s@);
    v
}

fn is_octet_exec(s: &Vec<char>) -> (r: (bool, u64))
    ensures
        r.0 == is_octet(s@),
        r.0 ==> r.1 == crate::text::decimal_value(s@),
{
    if !all_digits_exec(s) || s.len() > 3 {
        return (false, 0);
    }
    let v = small_value(s);
    (v <= 255, v)
}

fn is_hex_digit_exec(c: char) -> (r: bool)
    ensures
        r == is_hex_digit(c),
{
    ('0' <= c && c <= '9') || ('a' <= c && c <= 'f') || ('A' <= c && c <= 'F')
}

fn is_global_v6_exec(a: &Vec<char>) -> (r: bool)
    ensures
        r == is_global_v6(a@),
{
    a.len() >= 5 && (a[0] == '2' || a[0] == '3') && is_hex_digit_exec(a[1]) && is_hex_digit_exec(a[2])
        && is_hex_digit_exec(a[3]) && a[4] == ':'
}

fn is_public_v4_exec(h: &Vec<char>) -> (r: bool)
    ensures
        r == is_public_v4(h@),
{
    let ls = split_pieces(h, '.');
    if ls.len() != 4 {
        return false;
    }
    let (o0, a) = is_octet_exec(&ls[0]);
    let (o1, b) = is_octet_exec(&ls[1]);
    let (o2, _) = is_octet_exec(&ls[2]);
    let (o3, _) = is_octet_exec(&ls[3]);
    if !(o0 && o1 && o2 && o3) {
        return false;
    }
    !(a == 0 || a == 10 || a == 127 || (a == 169 && b == 254) || (a == 172 && 16 <= b && b <= 31) || (a == 192 && b == 168))
}

pub fn is_blocked_host_of(h: &Vec<char>) -> (r: bool)
    ensures
        r == is_blocked_host(h@),
{
    if h.len() == 0 {
        return true;
    }
    if ci_eq_exec(h, "localhost") || ci_ends_with_exec(h, ".localhost") || ci_ends_with_exec(h, ".local") {
        return true;
    }
    if h[0] == '[' {
        if h.len() >= 2 && h[h.len() - 1] == ']' {
            let inner = slice(h, 1, h.len() - 1);
            return !is_global_v6_exec(&inner);
        }
        return true;
    }
    if span_exec(h, 1) < h.len() {
        return !is_global_v6_exec(h);
    }
    let ls = split_pieces(h, '.');
    if ls.len() > 0 && ls[ls.len() - 1].len() > 0 && '0' <= ls[ls.len() - 1][0] && ls[ls.len() - 1][0] <= '9' {
        return !is_public_v4_exec(h);
    }
    false
}

/// The host of an `https` URL: the authority is what follows `https://`
/// (scheme in any case) up to the first `/`, `?`, `#` or `\`; it may not
/// hold user information; a bracketed IPv6 host ends at `]`, another at
/// `:`; what follows the host is empty or a colon and a decimal port.
pub open spec fn https_host(s: Seq<char>) -> Option<Seq<char>> {
    if !(s.len() >= 8 && ci_eq(s.take(8), "https://"@)) {
        None
    } else {
        let rest = s.skip(8);
        let auth = rest.take(span(rest, 0) as int);
        if span(auth, 3) < auth.len() {
            None
        } else {
            let k: int = if auth.len() > 0 && auth[0] == '[' {
                if span(auth, 2) < auth.len() { span(auth, 2) as int + 1 } else { -1 }
            } else {
                span(auth, 1) as int
            };
            if k < 1 {
                None
            } else {
                let tail = auth.skip(k);
                if tail.len() == 0 || (tail[0] == ':' && all_digits(tail.skip(1))) {
                    Some(auth.take(k))
                } else {
                    None
                }
            }
        }
    }
}

/// A download URL is acceptable: `https`, with a host that is not blocked.
pub open spec fn is_valid_download_url(s: Seq<char>) -> bool {
    match https_host(s) {
        Some(h) => !is_blocked_host(h),
        None => false,
    }
}

fn https_host_exec(cs: &Vec<char>) -> (r: Option<Vec<char>>)
    ensures
        match r {
            Some(h) => https_host(cs@) == Some(h@),
            None => https_host(cs@).is_none(),
        },
{
    if cs.len() < 8 {
        return None;
    }
    let head = slice(cs, 0, 8);
    assert(head@ =~= cs@.take(8));
    if !ci_eq_exec(&head, "https://") {
        return None;
    }
    let rest = slice(cs, 8, cs.len());
    assert(rest@ =~= cs@.skip(8));
    let n = span_exec(&rest, 0);
    let auth = slice(&rest, 0, n);
    assert(auth@ =~= rest@.take(n as int));
    if span_exec(&auth, 3) < auth.len() {
        return None;
    }
    let k: usize;
    if auth.len() > 0 && auth[0] == '[' {
        let b = span_exec(&auth, 2);
        if b < auth.len() {
            k = b + 1;
        } else {
            return None;
        }
    } else {
        k = span_exec(&auth, 1);
        if k < 1 {
            return None;
        }
    }
    let tail = slice(&auth, k, auth.len());
    assert(tail@ =~= auth@.skip(k as int));
    if tail.len() == 0 {
        let host = slice(&auth, 0, k);
        assert(host@ =~= auth@.take(k as int));
        return Some(host);
    }
    if tail[0] != ':' {
        return None;
    }
    let port = slice(&tail, 1, tail.len());
    assert(port@ =~= tail@.skip(1));
    if !all_digits_exec(&port) {
        return None;
    }
    let host = slice(&auth, 0, k);
    assert(host@ =~= auth@.take(k as int));
    Some(host)
}

/// Accepts a download URL only if it uses `https` and names a host that
/// is not local, private, loopback or link-local.
pub fn validate_download_url(url: &str) -> (r: Result<(), String>)
    ensures
        r.is_ok() == is_valid_download_url(url@),
        r matches Err(e) ==> e@ == "Invalid download URL"@,
{
    let cs = chars_of(url);
    match https_host_exec(&cs) {
        Some(h) => {
            if is_blocked_host_of(&h) {
                Err(String::from_str("Invalid download URL"))
            } else {
                Ok(())
            }
        },
        None => Err(String::from_str("Invalid download URL")),
    }
}


// ---------------------------------------------------------------------------
// Throughput

/// Tenths of `unit` in `n`, rounded half up.
pub open spec fn tenths(n: nat, unit: nat) -> nat
    recommends
        unit > 0,
{
    (n * 10 + unit / 2) / unit
}

/// `n` units written with one decimal place, then the unit's name.
pub open spec fn scaled(n: nat, unit: nat, name: Seq<char>) -> Seq<char> {
    let t = tenths(n, unit);
    decimal(t / 10) + "."@ + decimal(t % 10) + name
}

/// Throughput in bytes per second as text: whole bytes below 1 KiB, else
/// KB, MB or GB with one decimal place.
pub open spec fn speed_text(bps: nat) -> Seq<char> {
    if bps < 1024 {
        decimal(bps) + " B/s"@
    } else if bps < 1048576 {
        scaled(bps, 1024, " KB/s"@)
    } else if bps < 1073741824 {
        scaled(bps, 1048576, " MB/s"@)
    } else {
        scaled(bps, 1073741824, " GB/s"@)
    }
}

fn push_scaled(out: &mut Vec<char>, n: u64, unit: u64, name: &str)
    requires
        unit >= 1024,
        old(out)@.len() == 0,
    ensures
        final(out)@ == scaled(n as nat, unit as nat, name@),
{
    let t: u128 = ((n as u128) * 10 + (unit as u128) / 2) / (unit as u128);
    assert(t == tenths(n as nat, unit as nat));
    assert(t / 10 <= u64::MAX) by {
        let x = (n as u128) * 10 + (unit as u128) / 2;
        vstd::arithmetic::div_mod::lemma_div_is_ordered_by_denominator(x as int, 1024, unit as int);
    }
    push_decimal(out, (t / 10) as u64);
    push_str(out, ".");
    push_decimal(out, (t % 10) as u64);
    push_str(out, name);
    assert(out@ =~= scaled(n as nat, unit as nat, name@));
}

/// Formats a throughput for display, e.g. `"1.2 MB/s"`.
pub fn format_speed(bytes_per_sec: u64) -> (r: String)
    ensures
        r@ == speed_text(bytes_per_sec as nat),
{
    let mut out: Vec<char> = Vec::new();
    if bytes_per_sec < 1024 {
        push_decimal(&mut out, bytes_per_sec);
        push_str(&mut out, " B/s");
    } else if bytes_per_sec < 1048576 {
        push_scaled(&mut out, bytes_per_sec, 1024, " KB/s");
    } else if bytes_per_sec < 1073741824 {
        push_scaled(&mut out, bytes_per_sec, 1048576, " MB/s");
    } else {
        push_scaled(&mut out, bytes_per_sec, 1073741824, " GB/s");
    }
    string_of(&out)
}

} // verus!
