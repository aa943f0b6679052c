//! Character-level text operations used by the form codec: trimming,
//! label stripping, substring search, splitting and joining.
use vstd::prelude::*;
use vstd::string::*;

verus! {

/// The characters that carry the Unicode `White_Space` property, which is
/// what `str::trim` removes.
pub open spec fn is_ws(c: char) -> bool {
    let u = c as u32;
    (0x09 <= u && u <= 0x0D) || u == 0x20 || u == 0x85 || u == 0xA0 || u == 0x1680 || (0x2000
        <= u && u <= 0x200A) || u == 0x2028 || u == 0x2029 || u == 0x202F || u == 0x205F || u
        == 0x3000
}

pub open spec fn trim_start(s: Seq<char>) -> Seq<char>
    decreases s.len(),
{
    if s.len() > 0 && is_ws(s[0]) {
        trim_start(s.drop_first())
    } else {
        s
    }
}

pub open spec fn trim_end(s: Seq<char>) -> Seq<char>
    decreases s.len(),
{
    if s.len() > 0 && is_ws(s.last()) {
        trim_end(s.drop_last())
    } else {
        s
    }
}

/// Whitespace removed at both ends.
pub open spec fn trim(s: Seq<char>) -> Seq<char> {
    trim_end(trim_start(s))
}

/// `d` occurs in `s` starting at position `i`.
pub open spec fn match_at(s: Seq<char>, d: Seq<char>, i: int) -> bool {
    0 <= i && i + d.len() <= s.len() && s.subrange(i, i + d.len()) == d
}

pub open spec fn contains(s: Seq<char>, d: Seq<char>) -> bool {
    exists|i: int| match_at(s, d, i)
}

/// One leading `p` removed, if the text starts with it.
pub open spec fn strip_once(s: Seq<char>, p: Seq<char>) -> Seq<char> {
    if match_at(s, p, 0) {
        s.subrange(p.len() as int, s.len() as int)
    } else {
        s
    }
}

/// Every leading repetition of `p` removed, as `str::trim_start_matches` does.
pub open spec fn strip_all(s: Seq<char>, p: Seq<char>) -> Seq<char>
    decreases s.len(),
{
    if p.len() > 0 && match_at(s, p, 0) {
        strip_all(s.subrange(p.len() as int, s.len() as int), p)
    } else {
        s
    }
}

/// The first position at or after `i` where `d` occurs, or -1.
pub open spec fn first_from(s: Seq<char>, d: Seq<char>, i: int) -> int
    decreases s.len() - i,
{
    if i < 0 || i + d.len() > s.len() {
        -1
    } else if match_at(s, d, i) {
        i
    } else if i >= s.len() {
        -1
    } else {
        first_from(s, d, i + 1)
    }
}

/// The pieces of `s` between the non-overlapping occurrences of `d`, found
/// from the left, as `str::split` yields them.
pub open spec fn split(s: Seq<char>, d: Seq<char>) -> Seq<Seq<char>>
    decreases s.len(),
{
    let k = first_from(s, d, 0);
    if d.len() > 0 && 0 <= k && k + d.len() <= s.len() {
        seq![s.subrange(0, k)] + split(s.subrange(k + d.len(), s.len() as int), d)
    } else {
        seq![s]
    }
}

/// The pieces concatenated with `d` between each two.
pub open spec fn join(parts: Seq<Seq<char>>, d: Seq<char>) -> Seq<char>
    decreases parts.len(),
{
    if parts.len() == 0 {
        Seq::empty()
    } else if parts.len() == 1 {
        parts[0]
    } else {
        parts[0] + d + join(parts.drop_first(), d)
    }
}

/// Each piece trimmed.
pub open spec fn trim_each(parts: Seq<Seq<char>>) -> Seq<Seq<char>> {
    Seq::new(parts.len(), |i: int| trim(parts[i]))
}

/// The views of a vector of strings.
pub open spec fn views(v: Seq<String>) -> Seq<Seq<char>> {
    Seq::new(v.len(), |i: int| v[i]@)
}

/// The position of the first of `names` equal to `name`, or -1.
pub open spec fn first_index(names: Seq<Seq<char>>, name: Seq<char>) -> int
    decreases names.len(),
{
    if names.len() == 0 {
        -1
    } else if names.last() == name && first_index(names.drop_last(), name) < 0 {
        names.len() - 1
    } else {
        first_index(names.drop_last(), name)
    }
}

// ---------------------------------------------------------------------------
// Lemmas
/// The first match is the one a left-to-right search finds.
pub proof fn lemma_first_index(names: Seq<Seq<char>>, name: Seq<char>, i: int)
    requires
        0 <= i <= names.len(),
        forall|j: int| 0 <= j < i ==> #[trigger] names[j] != name,
        i < names.len() ==> names[i] == name,
    ensures
        first_index(names, name) == if i < names.len() {
            i
        } else {
            -1
        },
    decreases names.len(),
{
    if names.len() > 0 {
        let d = names.drop_last();
        if i < names.len() - 1 {
            lemma_first_index(d, name, i);
        } else {
            assert forall|j: int| 0 <= j < d.len() implies #[trigger] d[j] != name by {
                assert(d[j] == names[j]);
            }
            lemma_first_index(d, name, d.len() as int);
        }
    }
}

/// A found position holds the name and lies in range.
pub proof fn lemma_first_index_range(names: Seq<Seq<char>>, name: Seq<char>)
    ensures
        first_index(names, name) >= 0 ==> first_index(names, name) < names.len() && names[first_index(names, name)] == name,
        first_index(names, name) < 0 ==> first_index(names, name) == -1 && forall|j: int| 0 <= j < names.len() ==> #[trigger] names[j] != name,
    decreases names.len(),
{
    if names.len() > 0 {
        lemma_first_index_range(names.drop_last(), name);
        let d = names.drop_last();
        if first_index(names, name) < 0 {
            assert forall|j: int| 0 <= j < names.len() implies #[trigger] names[j] != name by {
                if j < d.len() {
                    assert(d[j] == names[j]);
                }
            }
        }
    }
}

pub proof fn lemma_trim_start_skip(s: Seq<char>, k: int)
    requires
        0 <= k <= s.len(),
        forall|j: int| 0 <= j < k ==> is_ws(#[trigger] s[j]),
    ensures
        trim_start(s) == trim_start(s.subrange(k, s.len() as int)),
    decreases k,
{
    if k == 0 {
        assert(s.subrange(0, s.len() as int) =~= s);
    } else {
        assert(is_ws(s[0]));
        let t = s.drop_first();
        assert forall|j: int| 0 <= j < k - 1 implies is_ws(#[trigger] t[j]) by {
            assert(t[j] == s[j + 1]);
        }
        lemma_trim_start_skip(t, k - 1);
        assert(t.subrange(k - 1, t.len() as int) =~= s.subrange(k, s.len() as int));
    }
}

pub proof fn lemma_trim_end_skip(s: Seq<char>, k: int)
    requires
        0 <= k <= s.len(),
        forall|j: int| k <= j < s.len() ==> is_ws(#[trigger] s[j]),
    ensures
        trim_end(s) == trim_end(s.subrange(0, k)),
    decreases s.len() - k,
{
    if k == s.len() {
        assert(s.subrange(0, k) =~= s);
    } else {
        assert(is_ws(s.last()));
        let t = s.drop_last();
        assert forall|j: int| k <= j < t.len() implies is_ws(#[trigger] t[j]) by {
            assert(t[j] == s[j]);
        }
        lemma_trim_end_skip(t, k);
        assert(t.subrange(0, k) =~= s.subrange(0, k));
    }
}

pub proof fn lemma_trim_end_idem(s: Seq<char>)
    ensures
        trim_end(s).len() > 0 ==> !is_ws(trim_end(s).last()),
        trim_end(s).len() > 0 ==> trim_end(s)[0] == s[0],
        trim_end(s).len() <= s.len(),
        trim_end(s) == s.subrange(0, trim_end(s).len() as int),
    decreases s.len(),
{
    if s.len() > 0 && is_ws(s.last()) {
        lemma_trim_end_idem(s.drop_last());
        assert(s.drop_last().subrange(0, trim_end(s).len() as int) =~= s.subrange(
            0,
            trim_end(s).len() as int,
        ));
    } else {
        assert(s.subrange(0, s.len() as int) =~= s);
    }
}

pub proof fn lemma_first_from_found(s: Seq<char>, d: Seq<char>, i: int, k: int)
    requires
        0 <= i <= k,
        match_at(s, d, k),
        forall|m: int| i <= m < k ==> !match_at(s, d, m),
    ensures
        first_from(s, d, i) == k,
    decreases k - i,
{
    if i < k {
        lemma_first_from_found(s, d, i + 1, k);
    }
}

pub proof fn lemma_first_from_none(s: Seq<char>, d: Seq<char>, i: int)
    requires
        0 <= i,
        forall|m: int| i <= m ==> !match_at(s, d, m),
    ensures
        first_from(s, d, i) == -1,
    decreases s.len() - i,
{
    if i < s.len() && i + d.len() <= s.len() {
        lemma_first_from_none(s, d, i + 1);
    } else if i + d.len() <= s.len() {
        assert(s.subrange(i, i + d.len()) =~= d);
    }
}

pub proof fn lemma_join_push(parts: Seq<Seq<char>>, d: Seq<char>, i: int)
    requires
        1 <= i < parts.len(),
    ensures
        join(parts.take(i + 1), d) == join(parts.take(i), d) + d + parts[i],
    decreases i,
{
    let a = parts.take(i + 1);
    if i == 1 {
        assert(a.drop_first() =~= seq![parts[1]]);
        assert(parts.take(1) =~= seq![parts[0]]);
        assert(join(a, d) == parts[0] + d + join(a.drop_first(), d));
    } else {
        let t = parts.drop_first();
        lemma_join_push(t, d, i - 1);
        assert(a.drop_first() =~= t.take(i));
        assert(parts.take(i).drop_first() =~= t.take(i - 1));
        assert(join(a, d) == parts[0] + d + join(t.take(i), d));
        assert(join(parts.take(i), d) == parts[0] + d + join(t.take(i - 1), d));
        assert(join(a, d) =~= join(parts.take(i), d) + d + parts[i]);
    }
}

/// `d` occurs in `p + d` at the end only: `p` cannot swallow the separator
/// that follows it.
pub open spec fn clean_piece(p: Seq<char>, d: Seq<char>) -> bool {
    forall|m: int| 0 <= m < p.len() ==> !match_at(p + d, d, m)
}

/// Splitting what `join` built gives back the pieces, provided that no piece
/// holds the separator, even together with the separator after it.
pub proof fn lemma_split_join(parts: Seq<Seq<char>>, d: Seq<char>)
    requires
        parts.len() >= 1,
        d.len() > 0,
        forall|k: int| 0 <= k < parts.len() ==> clean_piece(#[trigger] parts[k], d),
    ensures
        split(join(parts, d), d) == parts,
    decreases parts.len(),
{
    let p = parts[0];
    assert(clean_piece(p, d));
    if parts.len() == 1 {
        assert(join(parts, d) == p);
        assert forall|m: int| 0 <= m implies !match_at(p, d, m) by {
            if match_at(p, d, m) {
                assert((p + d).subrange(m, m + d.len()) =~= p.subrange(m, m + d.len()));
                assert(match_at(p + d, d, m));
            }
        }
        lemma_first_from_none(p, d, 0);
        assert(split(p, d) =~= parts);
    } else {
        let rest = parts.drop_first();
        assert forall|k: int| 0 <= k < rest.len() implies clean_piece(#[trigger] rest[k], d) by {
            assert(rest[k] == parts[k + 1]);
        }
        lemma_split_join(rest, d);
        let s = join(parts, d);
        assert(s == p + d + join(rest, d));
        let n = p.len() as int;
        assert(s.subrange(n, n + d.len()) =~= d);
        assert forall|m: int| 0 <= m < n implies !match_at(s, d, m) by {
            if match_at(s, d, m) {
                assert((p + d).subrange(m, m + d.len()) =~= s.subrange(m, m + d.len()));
                assert(match_at(p + d, d, m));
            }
        }
        lemma_first_from_found(s, d, 0, n);
        assert(s.subrange(0, n) =~= p);
        assert(s.subrange(n + d.len(), s.len() as int) =~= join(rest, d));
        assert(split(s, d) =~= seq![p] + rest);
    }
}

// ---------------------------------------------------------------------------
// Executable operations
pub fn is_whitespace_char(c: char) -> (r: bool)
    ensures
        r == is_ws(c),
{
    let u = c as u32;
    (0x09 <= u && u <= 0x0D) || u == 0x20 || u == 0x85 || u == 0xA0 || u == 0x1680 || (0x2000
        <= u && u <= 0x200A) || u == 0x2028 || u == 0x2029 || u == 0x202F || u == 0x205F || u
        == 0x3000
}

/// Whether `d` occurs in `s` at character position `i`.
pub fn matches_at(s: &str, n: usize, d: &str, dn: usize, i: usize) -> (r: bool)
    requires
        n == s@.len(),
        dn == d@.len(),
    ensures
        r == match_at(s@, d@, i as int),
{
    if i > n || dn > n - i {
        return false;
    }
    let mut j: usize = 0;
    while j < dn
        invariant
            i + dn <= n,
            n == s@.len(),
            dn == d@.len(),
            j <= dn,
            forall|m: int| 0 <= m < j ==> s@[i + m] == d@[m],
        decreases dn - j,
    {
        if s.get_char(i + j) != d.get_char(j) {
            assert(s@.subrange(i as int, i + dn)[j as int] != d@[j as int]);
            return false;
        }
        j = j + 1;
    }
    assert(s@.subrange(i as int, i + dn) =~= d@);
    true
}

/// `str::contains` on character sequences.
pub fn contains_str(s: &str, d: &str) -> (r: bool)
    ensures
        r == contains(s@, d@),
{
    let n = s.unicode_len();
    let dn = d.unicode_len();
    let mut i: usize = 0;
    while i < n
        invariant
            n == s@.len(),
            dn == d@.len(),
            i <= n,
            forall|m: int| 0 <= m < i ==> !match_at(s@, d@, m),
        decreases n - i,
    {
        if matches_at(s, n, d, dn, i) {
            return true;
        }
        i = i + 1;
    }
    matches_at(s, n, d, dn, n)
}

/// `str::trim`.
pub fn trim_str(s: &str) -> (r: String)
    ensures
        r@ == trim(s@),
{
    let n = s.unicode_len();
    let mut i: usize = 0;
    while i < n && is_whitespace_char(s.get_char(i))
        invariant
            n == s@.len(),
            i <= n,
            forall|j: int| 0 <= j < i ==> is_ws(#[trigger] s@[j]),
        decreases n - i,
    {
        i = i + 1;
    }
    proof {
        lemma_trim_start_skip(s@, i as int);
    }
    let ghost t = s@.subrange(i as int, n as int);
    assert(trim_start(t) == t);
    let mut j: usize = n;
    while j > i && is_whitespace_char(s.get_char(j - 1))
        invariant
            n == s@.len(),
            i <= j <= n,
            forall|m: int| j <= m < n ==> is_ws(#[trigger] s@[m]),
        decreases j,
    {
        j = j - 1;
    }
    proof {
        assert forall|m: int| (j - i) <= m < t.len() implies is_ws(#[trigger] t[m]) by {
            assert(t[m] == s@[i + m]);
        }
        lemma_trim_end_skip(t, j - i);
        assert(t.subrange(0, j - i) =~= s@.subrange(i as int, j as int));
    }
    String::from_str(s.substring_char(i, j))
}

/// `str::trim_start_matches` with a string pattern.
pub fn strip_all_str(s: &str, p: &str) -> (r: String)
    ensures
        r@ == strip_all(s@, p@),
{
    let n = s.unicode_len();
    let pn = p.unicode_len();
    let mut i: usize = 0;
    if pn == 0 {
        assert(s@.subrange(0, n as int) =~= s@);
        return String::from_str(s.substring_char(0, n));
    }
    proof {
        assert(s@.subrange(0, n as int) =~= s@);
    }
    while matches_at(s, n, p, pn, i)
        invariant
            n == s@.len(),
            pn == p@.len(),
            pn > 0,
            i <= n,
            strip_all(s@, p@) == strip_all(s@.subrange(i as int, n as int), p@),
        decreases n - i,
    {
        let ghost t = s@.subrange(i as int, n as int);
        proof {
            assert(t.subrange(0, pn as int) =~= s@.subrange(i as int, i + pn));
            assert(t.subrange(pn as int, t.len() as int) =~= s@.subrange(i + pn, n as int));
        }
        i = i + pn;
    }
    proof {
        let t = s@.subrange(i as int, n as int);
        if match_at(t, p@, 0) {
            assert(t.subrange(0, pn as int) =~= s@.subrange(i as int, i + pn));
        }
    }
    String::from_str(s.substring_char(i, n))
}

/// `str::strip_prefix`, keeping the text when it does not start with `p`.
pub fn strip_once_str(s: &str, p: &str) -> (r: String)
    ensures
        r@ == strip_once(s@, p@),
{
    let n = s.unicode_len();
    let pn = p.unicode_len();
    if matches_at(s, n, p, pn, 0) {
        String::from_str(s.substring_char(pn, n))
    } else {
        assert(s@.subrange(0, n as int) =~= s@);
        String::from_str(s.substring_char(0, n))
    }
}

/// `str::split` with a string pattern.
pub fn split_str(s: &str, d: &str) -> (r: Vec<String>)
    requires
        d@.len() > 0,
    ensures
        views(r@) == split(s@, d@),
{
    let n = s.unicode_len();
    let dn = d.unicode_len();
    let mut parts: Vec<String> = Vec::new();
    let mut start: usize = 0;
    let mut i: usize = 0;
    proof {
        assert(s@.subrange(0, n as int) =~= s@);
    }
    while i < n
        invariant
            n == s@.len(),
            dn == d@.len(),
            dn > 0,
            start <= i <= n,
            views(parts@) + split(s@.subrange(start as int, n as int), d@) == split(s@, d@),
            forall|m: int|
                0 <= m < i - start ==> !#[trigger] match_at(
                    s@.subrange(start as int, n as int),
                    d@,
                    m,
                ),
        decreases n - i,
    {
        if matches_at(s, n, d, dn, i) {
            let ghost t = s@.subrange(start as int, n as int);
            proof {
                assert(t.subrange(i - start, i - start + dn) =~= s@.subrange(i as int, i + dn));
                lemma_first_from_found(t, d@, 0, i - start);
                assert(t.subrange(0, i - start) =~= s@.subrange(start as int, i as int));
                assert(t.subrange(i - start + dn, t.len() as int) =~= s@.subrange(
                    i + dn,
                    n as int,
                ));
            }
            let piece = String::from_str(s.substring_char(start, i));
            let ghost old_parts = parts@;
            parts.push(piece);
            proof {
                assert(views(parts@) =~= views(old_parts) + seq![piece@]);
                assert(split(t, d@) == seq![t.subrange(0, i - start)] + split(
                    s@.subrange(i + dn, n as int),
                    d@,
                ));
            }
            i = i + dn;
            start = i;
        } else {
            proof {
                let t = s@.subrange(start as int, n as int);
                if match_at(t, d@, i - start) {
                    assert(t.subrange(i - start, i - start + dn) =~= s@.subrange(
                        i as int,
                        i + dn,
                    ));
                }
            }
            i = i + 1;
        }
    }
    let ghost t = s@.subrange(start as int, n as int);
    proof {
        assert forall|m: int| 0 <= m implies !match_at(t, d@, m) by {
        }
        lemma_first_from_none(t, d@, 0);
    }
    let last = String::from_str(s.substring_char(start, n));
    let ghost old_parts = parts@;
    parts.push(last);
    proof {
        assert(views(parts@) =~= views(old_parts) + seq![last@]);
    }
    parts
}

/// The pieces concatenated with `d` between each two, as `[String]::join`.
pub fn join_strs(parts: &Vec<String>, d: &str) -> (r: String)
    ensures
        r@ == join(views(parts@), d@),
{
    let mut out = String::new();
    let ghost ps = views(parts@);
    let mut i: usize = 0;
    while i < parts.len()
        invariant
            ps == views(parts@),
            i <= parts.len(),
            out@ == join(ps.take(i as int), d@),
        decreases parts.len() - i,
    {
        if i == 0 {
            out.append(parts[i].as_str());
            assert(ps.take(1) =~= seq![ps[0]]);
        } else {
            proof {
                lemma_join_push(ps, d@, i as int);
            }
            out.append(d);
            out.append(parts[i].as_str());
        }
        i = i + 1;
    }
    assert(ps.take(parts.len() as int) =~= ps);
    out
}

/// Each string trimmed.
pub fn trim_all(parts: &Vec<String>) -> (r: Vec<String>)
    ensures
        views(r@) == trim_each(views(parts@)),
{
    let mut out: Vec<String> = Vec::new();
    let mut i: usize = 0;
    while i < parts.len()
        invariant
            i <= parts.len(),
            out@.len() == i,
            forall|k: int| 0 <= k < i ==> (#[trigger] out@[k])@ == trim(parts@[k]@),
        decreases parts.len() - i,
    {
        let t = trim_str(parts[i].as_str());
        out.push(t);
        i = i + 1;
    }
    assert(views(out@) =~= trim_each(views(parts@)));
    out
}

/// Whether two texts are the same.
pub fn equal_strs(a: &str, b: &str) -> (r: bool)
    ensures
        r == (a@ == b@),
{
    let n = a.unicode_len();
    if n != b.unicode_len() {
        return false;
    }
    let mut i: usize = 0;
    while i < n
        invariant
            n == a@.len(),
            n == b@.len(),
            i <= n,
            forall|j: int| 0 <= j < i ==> a@[j] == b@[j],
        decreases n - i,
    {
        if a.get_char(i) != b.get_char(i) {
            return false;
        }
        i = i + 1;
    }
    assert(a@ =~= b@);
    true
}

/// The position of the first of `v` equal to `name`.
pub fn find_str(v: &Vec<String>, name: &str) -> (r: Option<usize>)
    ensures
        ({
            let k = first_index(views(v@), name@);
            &&& k < 0 ==> r is None
            &&& k >= 0 ==> (r matches Some(i) && i as int == k && k < v@.len())
        }),
{
    let ghost ns = views(v@);
    let mut i: usize = 0;
    while i < v.len()
        invariant
            ns == views(v@),
            i <= v@.len(),
            forall|j: int| 0 <= j < i ==> #[trigger] ns[j] != name@,
        decreases v.len() - i,
    {
        if equal_strs(v[i].as_str(), name) {
            proof {
                lemma_first_index(ns, name@, i as int);
            }
            return Some(i);
        }
        i = i + 1;
    }
    proof {
        lemma_first_index(ns, name@, i as int);
    }
    None
}

/// A copy of a list of strings.
pub fn copy_strs(v: &Vec<String>) -> (r: Vec<String>)
    ensures
        r@ == v@,
{
    let mut out: Vec<String> = Vec::new();
    let mut i: usize = 0;
    while i < v.len()
        invariant
            i <= v.len(),
            out@ == v@.take(i as int),
        decreases v.len() - i,
    {
        out.push(v[i].clone());
        assert(out@ =~= v@.take(i + 1));
        i = i + 1;
    }
    assert(v@.take(v.len() as int) =~= v@);
    out
}

} // verus!
