//! Character-sequence utilities: whitespace trimming, substring search and
//! UTF-8 widths, each as an executable function pinned to a spec function.

use vstd::prelude::*;
use vstd::string::StrSliceExecFns;

verus! {

/// The Unicode `White_Space` characters, as `char::is_whitespace` knows them.
pub open spec fn is_ws(c: char) -> bool {
    let u = c as u32;
    u == 0x20 || (0x09 <= u && u <= 0x0D) || u == 0x85 || u == 0xA0 || u == 0x1680
        || (0x2000 <= u && u <= 0x200A) || u == 0x2028 || u == 0x2029 || u == 0x202F
        || u == 0x205F || u == 0x3000
}

pub fn ws_char(c: char) -> (r: bool)
    ensures
        r == is_ws(c),
{
    let u: u32 = c as u32;
    u == 0x20 || (0x09 <= u && u <= 0x0D) || u == 0x85 || u == 0xA0 || u == 0x1680
        || (0x2000 <= u && u <= 0x200A) || u == 0x2028 || u == 0x2029 || u == 0x202F
        || u == 0x205F || u == 0x3000
}

/// First position at or after `i` holding a non-whitespace character
/// (the length of `t` if there is none).
pub open spec fn scan_ws_from(t: Seq<char>, i: int) -> int
    decreases t.len() - i,
{
    if i < 0 {
        0
    } else if i >= t.len() {
        t.len() as int
    } else if is_ws(t[i]) {
        scan_ws_from(t, i + 1)
    } else {
        i
    }
}

/// First position `p <= i` such that everything in `t[p..i]` is whitespace.
pub open spec fn scan_ws_down(t: Seq<char>, i: int) -> int
    decreases i,
{
    if i <= 0 {
        0
    } else if i > t.len() {
        t.len() as int
    } else if is_ws(t[i - 1]) {
        scan_ws_down(t, i - 1)
    } else {
        i
    }
}

proof fn lemma_scan_ws_from_bounds(t: Seq<char>, i: int)
    requires
        0 <= i <= t.len(),
    ensures
        i <= scan_ws_from(t, i) <= t.len(),
    decreases t.len() - i,
{
    if i < t.len() && is_ws(t[i]) {
        lemma_scan_ws_from_bounds(t, i + 1);
    }
}

proof fn lemma_scan_ws_down_bounds(t: Seq<char>, i: int)
    requires
        0 <= i <= t.len(),
    ensures
        0 <= scan_ws_down(t, i) <= i,
    decreases i,
{
    if i > 0 && is_ws(t[i - 1]) {
        lemma_scan_ws_down_bounds(t, i - 1);
    }
}

/// The forward scan lands on a non-whitespace character or the end.
proof fn lemma_scan_ws_from_hits(t: Seq<char>, i: int)
    requires
        0 <= i <= t.len(),
    ensures
        scan_ws_from(t, i) < t.len() ==> !is_ws(t[scan_ws_from(t, i)]),
    decreases t.len() - i,
{
    if i < t.len() && is_ws(t[i]) {
        lemma_scan_ws_from_hits(t, i + 1);
    }
}

/// The backward scan lands just past a non-whitespace character or at zero.
proof fn lemma_scan_ws_down_hits(t: Seq<char>, i: int)
    requires
        0 <= i <= t.len(),
    ensures
        scan_ws_down(t, i) > 0 ==> !is_ws(t[scan_ws_down(t, i) - 1]),
    decreases i,
{
    if i > 0 && is_ws(t[i - 1]) {
        lemma_scan_ws_down_hits(t, i - 1);
    }
}

/// A non-empty trimmed text carries no whitespace at either edge.
pub proof fn lemma_trim_no_edge_ws(t: Seq<char>)
    ensures
        trim_spec(t).len() > 0 ==> !is_ws(trim_spec(t)[0]) && !is_ws(
            trim_spec(t)[trim_spec(t).len() - 1],
        ),
{
    lemma_scan_ws_from_bounds(t, 0);
    lemma_scan_ws_down_bounds(t, t.len() as int);
    lemma_scan_ws_from_hits(t, 0);
    lemma_scan_ws_down_hits(t, t.len() as int);
}

/// What `str::trim` leaves: the text with leading and trailing
/// whitespace removed.
pub open spec fn trim_spec(t: Seq<char>) -> Seq<char> {
    let a = scan_ws_from(t, 0);
    let b = scan_ws_down(t, t.len() as int);
    if a < b {
        t.subrange(a, b)
    } else {
        Seq::empty()
    }
}

/// Copy of `v` with leading and trailing whitespace removed.
pub fn trim(v: &Vec<char>) -> (r: Vec<char>)
    ensures
        r@ == trim_spec(v@),
{
    let n: usize = v.len();
    let mut a: usize = 0;
    while a < n && ws_char(v[a])
        invariant
            0 <= a <= n,
            scan_ws_from(v@, 0) == scan_ws_from(v@, a as int),
        decreases n - a,
    {
        a = a + 1;
    }
    assert(scan_ws_from(v@, 0) == a as int);
    let mut b: usize = n;
    while b > a && ws_char(v[b - 1])
        invariant
            a <= b <= n,
            a < n ==> !is_ws(v@[a as int]),
            a < n ==> b > a,
            scan_ws_down(v@, n as int) == scan_ws_down(v@, b as int),
        decreases b,
    {
        b = b - 1;
    }
    let mut r: Vec<char> = Vec::new();
    let mut k: usize = a;
    while k < b
        invariant
            a <= k <= b <= n,
            r@ == v@.subrange(a as int, k as int),
        decreases b - k,
    {
        r.push(v[k]);
        assert(r@ =~= v@.subrange(a as int, k as int + 1));
        k = k + 1;
    }
    proof {
        lemma_scan_ws_from_bounds(v@, 0);
        lemma_scan_ws_down_bounds(v@, n as int);
        if a < n {
            // the trailing scan cannot pass the first non-whitespace character
            assert(!is_ws(v@[a as int]));
            if b == a {
                assert(false);
            }
            assert(scan_ws_down(v@, b as int) == b as int);
            assert(r@ =~= trim_spec(v@));
        } else {
            assert(scan_ws_from(v@, 0) == v@.len());
            assert(r@ =~= trim_spec(v@));
        }
    }
    r
}

/// Whether `c` occurs in `t`.
pub open spec fn has_char(t: Seq<char>, c: char) -> bool {
    exists|j: int| 0 <= j < t.len() && t[j] == c
}

pub fn contains_char(v: &Vec<char>, c: char) -> (r: bool)
    ensures
        r == has_char(v@, c),
{
    let n: usize = v.len();
    let mut i: usize = 0;
    while i < n
        invariant
            0 <= i <= n,
            forall|j: int| 0 <= j < i ==> v@[j] != c,
        decreases n - i,
    {
        if v[i] == c {
            return true;
        }
        i = i + 1;
    }
    false
}

/// First position at or after `i` where `c` occurs in `t`.
pub open spec fn find_char(t: Seq<char>, c: char, i: int) -> Option<int>
    decreases t.len() - i,
{
    if i < 0 || i >= t.len() {
        None
    } else if t[i] == c {
        Some(i)
    } else {
        find_char(t, c, i + 1)
    }
}

pub fn find_char_from(v: &Vec<char>, c: char, from: usize) -> (r: Option<usize>)
    requires
        from <= v@.len(),
    ensures
        match r {
            Some(j) => Some(j as int) == find_char(v@, c, from as int),
            None => find_char(v@, c, from as int) is None,
        },
{
    let n: usize = v.len();
    let mut i: usize = from;
    while i < n
        invariant
            from <= i <= n,
            find_char(v@, c, from as int) == find_char(v@, c, i as int),
        decreases n - i,
    {
        if v[i] == c {
            return Some(i);
        }
        i = i + 1;
    }
    None
}

/// A found character lies within bounds, matches, and is the first one.
pub proof fn lemma_find_char_bounds(t: Seq<char>, c: char, i: int)
    requires
        0 <= i,
    ensures
        find_char(t, c, i) is Some ==> i <= find_char(t, c, i)->Some_0 < t.len() && t[find_char(
            t,
            c,
            i,
        )->Some_0] == c,
    decreases t.len() - i,
{
    if 0 <= i < t.len() && t[i] != c {
        lemma_find_char_bounds(t, c, i + 1);
    }
}

/// First position at or after `i` where the pattern `pat` occurs in `t`.
pub open spec fn find_sub(t: Seq<char>, pat: Seq<char>, i: int) -> Option<int>
    decreases t.len() - i,
{
    if i < 0 || i + pat.len() > t.len() {
        None
    } else if pat.len() == 0 {
        Some(i)
    } else if t.subrange(i, i + pat.len() as int) == pat {
        Some(i)
    } else {
        find_sub(t, pat, i + 1)
    }
}

/// A found pattern occurrence lies within bounds and matches.
pub proof fn lemma_find_sub_bounds(t: Seq<char>, pat: Seq<char>, i: int)
    requires
        0 <= i,
    ensures
        find_sub(t, pat, i) is Some ==> i <= find_sub(t, pat, i)->Some_0 && find_sub(
            t,
            pat,
            i,
        )->Some_0 + pat.len() <= t.len(),
    decreases t.len() - i,
{
    if i + pat.len() <= t.len() && pat.len() != 0 && t.subrange(i, i + pat.len() as int) != pat {
        lemma_find_sub_bounds(t, pat, i + 1);
    }
}

pub fn find_pattern(v: &Vec<char>, pat: &Vec<char>) -> (r: Option<usize>)
    ensures
        match r {
            Some(j) => Some(j as int) == find_sub(v@, pat@, 0),
            None => find_sub(v@, pat@, 0) is None,
        },
{
    let n: usize = v.len();
    let m: usize = pat.len();
    if m > n {
        return None;
    }
    if m == 0 {
        return Some(0);
    }
    let mut i: usize = 0;
    while i <= n - m
        invariant
            0 <= i,
            i + m <= n + 1,
            0 < m <= n,
            find_sub(v@, pat@, 0) == find_sub(v@, pat@, i as int),
        decreases n - i,
    {
        let mut k: usize = 0;
        let mut all_eq: bool = true;
        while k < m
            invariant
                0 <= k <= m,
                i + m <= n,
                all_eq ==> forall|q: int| 0 <= q < k ==> v@[i + q] == pat@[q],
                !all_eq ==> v@.subrange(i as int, i + m as int) != pat@,
            decreases m - k,
        {
            if v[i + k] != pat[k] {
                proof {
                    assert(v@.subrange(i as int, i + m as int)[k as int] == v@[i + k]);
                }
                all_eq = false;
                k = m;
            } else {
                k = k + 1;
            }
        }
        if all_eq {
            proof {
                assert(v@.subrange(i as int, i + m as int) =~= pat@);
            }
            return Some(i);
        }
        i = i + 1;
    }
    proof {
        assert(find_sub(v@, pat@, i as int) is None);
    }
    None
}

/// Whether `t` ends with the three characters `end`.
pub open spec fn ends_end(t: Seq<char>) -> bool {
    t.len() >= 3 && t[t.len() - 3] == 'e' && t[t.len() - 2] == 'n' && t[t.len() - 1] == 'd'
}

pub fn ends_with_end(v: &Vec<char>) -> (r: bool)
    ensures
        r == ends_end(v@),
{
    let n: usize = v.len();
    n >= 3 && v[n - 3] == 'e' && v[n - 2] == 'n' && v[n - 1] == 'd'
}

/// What `str::trim_end_matches` leaves for the pattern `end`: the text with
/// every trailing repetition of those three characters removed.
pub open spec fn sans_end_runs(t: Seq<char>) -> Seq<char>
    decreases t.len(),
{
    if ends_end(t) {
        sans_end_runs(t.take(t.len() - 3))
    } else {
        t
    }
}

pub fn strip_end_runs(v: &Vec<char>) -> (r: Vec<char>)
    ensures
        r@ == sans_end_runs(v@),
{
    let mut m: usize = v.len();
    proof {
        assert(v@.take(m as int) =~= v@);
    }
    while m >= 3 && v[m - 3] == 'e' && v[m - 2] == 'n' && v[m - 1] == 'd'
        invariant
            m <= v@.len(),
            sans_end_runs(v@) == sans_end_runs(v@.take(m as int)),
        decreases m,
    {
        proof {
            assert(ends_end(v@.take(m as int)));
            assert(v@.take(m as int).take(m - 3) =~= v@.take(m - 3));
        }
        m = m - 3;
    }
    proof {
        assert(!ends_end(v@.take(m as int)));
    }
    let mut r: Vec<char> = Vec::new();
    let mut k: usize = 0;
    while k < m
        invariant
            0 <= k <= m <= v@.len(),
            r@ == v@.subrange(0, k as int),
        decreases m - k,
    {
        r.push(v[k]);
        assert(r@ =~= v@.subrange(0, k as int + 1));
        k = k + 1;
    }
    proof {
        assert(r@ =~= v@.take(m as int));
    }
    r
}

/// Bytes the character occupies in UTF-8.
pub open spec fn char_w(c: char) -> nat {
    let u = c as u32;
    if u < 0x80 {
        1
    } else if u < 0x800 {
        2
    } else if u < 0x10000 {
        3
    } else {
        4
    }
}

/// Bytes the whole sequence occupies in UTF-8: what `str::len` counts.
pub open spec fn utf8_len(t: Seq<char>) -> nat
    decreases t.len(),
{
    if t.len() == 0 {
        0
    } else {
        utf8_len(t.drop_last()) + char_w(t.last())
    }
}

proof fn lemma_utf8_take_step(t: Seq<char>, i: int)
    requires
        0 <= i < t.len(),
    ensures
        utf8_len(t.take(i + 1)) == utf8_len(t.take(i)) + char_w(t[i]),
{
    assert(t.take(i + 1).drop_last() =~= t.take(i));
}

proof fn lemma_utf8_prefix_le(t: Seq<char>, i: int)
    requires
        0 <= i <= t.len(),
    ensures
        utf8_len(t.take(i)) <= utf8_len(t),
    decreases t.len() - i,
{
    if i < t.len() {
        lemma_utf8_take_step(t, i);
        lemma_utf8_prefix_le(t, i + 1);
    } else {
        assert(t.take(i) =~= t);
    }
}

/// Whether the text is below the inline-body threshold of 50 UTF-8 bytes.
pub fn short_line(v: &Vec<char>) -> (r: bool)
    ensures
        r == (utf8_len(v@) < 50),
{
    let n: usize = v.len();
    let mut sum: usize = 0;
    let mut i: usize = 0;
    proof {
        assert(v@.take(0) =~= Seq::<char>::empty());
    }
    while i < n
        invariant
            0 <= i <= n,
            sum < 50,
            sum == utf8_len(v@.take(i as int)),
        decreases n - i,
    {
        let u: u32 = v[i] as u32;
        let w: usize = if u < 0x80 {
            1
        } else if u < 0x800 {
            2
        } else if u < 0x10000 {
            3
        } else {
            4
        };
        proof {
            lemma_utf8_take_step(v@, i as int);
        }
        sum = sum + w;
        if sum >= 50 {
            proof {
                lemma_utf8_prefix_le(v@, i + 1);
            }
            return false;
        }
        i = i + 1;
    }
    proof {
        assert(v@.take(n as int) =~= v@);
    }
    true
}

/// Whether the characters of `v` are exactly those of `s`.
pub fn eq_str(v: &Vec<char>, s: &str) -> (r: bool)
    ensures
        r == (v@ == s@),
{
    let n: usize = s.unicode_len();
    if v.len() != n {
        proof {
            assert(v@ != s@);
        }
        return false;
    }
    let mut i: usize = 0;
    while i < n
        invariant
            0 <= i <= n,
            n == s@.len() && n == v@.len(),
            forall|j: int| 0 <= j < i ==> v@[j] == s@[j],
        decreases n - i,
    {
        if v[i] != s.get_char(i) {
            proof {
                assert(v@ != s@);
            }
            return false;
        }
        i = i + 1;
    }
    proof {
        assert(v@ =~= s@);
    }
    true
}

/// Copy of `v[a..b]`.
pub fn sub_vec(v: &Vec<char>, a: usize, b: usize) -> (r: Vec<char>)
    requires
        a <= b <= v@.len(),
    ensures
        r@ == v@.subrange(a as int, b as int),
{
    let mut r: Vec<char> = Vec::new();
    let mut k: usize = a;
    while k < b
        invariant
            a <= k <= b <= v@.len(),
            r@ == v@.subrange(a as int, k as int),
        decreases b - k,
    {
        r.push(v[k]);
        assert(r@ =~= v@.subrange(a as int, k as int + 1));
        k = k + 1;
    }
    r
}

/// Copy of `v` followed by the characters of `s`.
pub fn append_str(v: &mut Vec<char>, s: &str)
    ensures
        final(v)@ == old(v)@ + s@,
{
    let n: usize = s.unicode_len();
    let mut i: usize = 0;
    while i < n
        invariant
            0 <= i <= n,
            n == s@.len(),
            v@ == old(v)@ + s@.take(i as int),
        decreases n - i,
    {
        v.push(s.get_char(i));
        proof {
            assert(old(v)@ + s@.take(i as int + 1) =~= (old(v)@ + s@.take(i as int)).push(
                s@[i as int],
            ));
        }
        i = i + 1;
    }
    proof {
        assert(s@.take(n as int) =~= s@);
        assert(v@ =~= old(v)@ + s@);
    }
}


/// Relies on `String: FromIterator<char>`: collecting characters yields
/// the string of exactly those characters.
#[verifier::external_body]
pub fn string_of_chars(v: &Vec<char>) -> (s: String)
    ensures
        s@ == v@,
{
    v.iter().collect()
}

} // verus!
