//! Character-level text utilities shared by the parsing modules:
//! substring search, whitespace trimming and line splitting, each specified
//! over `Seq<char>`.

use vstd::prelude::*;
use vstd::string::*;

verus! {

/// ASCII whitespace, as the wire text formats use it.
pub open spec fn ws(c: char) -> bool {
    c == ' ' || c == '\t' || c == '\n' || c == '\r' || c == '\u{c}'
}

/// Executable form of [`ws`].
pub fn is_ws(c: char) -> (r: bool)
    ensures
        r == ws(c),
{
    c == ' ' || c == '\t' || c == '\n' || c == '\r' || c == '\u{c}'
}

/// Whether `n` occurs in `h` starting at index `i`.
pub open spec fn occurs_at(h: Seq<char>, n: Seq<char>, i: int) -> bool {
    0 <= i && i + n.len() <= h.len() && h.subrange(i, i + n.len()) == n
}

/// The first occurrence of `n` in `h` at or after `i`, if any.
pub open spec fn find_from(h: Seq<char>, n: Seq<char>, i: int) -> Option<int>
    recommends
        0 <= i <= h.len(),
    decreases h.len() - i when 0 <= i <= h.len()
{
    if n.len() == 0 {
        Some(i)
    } else if i + n.len() > h.len() {
        None
    } else if occurs_at(h, n, i) {
        Some(i)
    } else {
        find_from(h, n, i + 1)
    }
}

/// What `find_from` returns is an occurrence, and the first one.
pub proof fn lemma_find_from(h: Seq<char>, n: Seq<char>, i: int)
    requires
        0 <= i <= h.len(),
    ensures
        match find_from(h, n, i) {
            Some(j) => occurs_at(h, n, j) && i <= j && forall|k: int|
                i <= k < j ==> !occurs_at(h, n, k),
            None => forall|k: int| i <= k ==> !occurs_at(h, n, k),
        },
    decreases h.len() - i,
{
    if n.len() == 0 {
        assert(h.subrange(i, i) =~= n);
    } else if i + n.len() > h.len() {
        assert forall|k: int| i <= k implies !occurs_at(h, n, k) by {}
    } else if occurs_at(h, n, i) {
    } else {
        lemma_find_from(h, n, i + 1);
    }
}

/// Whether `n` occurs in `h` starting at `at`.
pub fn matches_at(h: &str, n: &str, at: usize) -> (r: bool)
    requires
        at <= h@.len(),
    ensures
        r == occurs_at(h@, n@, at as int),
{
    let hl = h.unicode_len();
    let nl = n.unicode_len();
    if nl > hl || at > hl - nl {
        proof {
            if occurs_at(h@, n@, at as int) {
                assert(at + n@.len() <= h@.len());
            }
        }
        return false;
    }
    let mut k: usize = 0;
    while k < nl
        invariant
            k <= nl,
            nl == n@.len(),
            hl == h@.len(),
            at + nl <= hl,
            forall|j: int| 0 <= j < k ==> h@[at + j] == n@[j],
        decreases nl - k,
    {
        if h.get_char(at + k) != n.get_char(k) {
            proof {
                assert(h@.subrange(at as int, at + n@.len())[k as int] == h@[at + k]);
            }
            return false;
        }
        k = k + 1;
    }
    proof {
        assert(h@.subrange(at as int, at + n@.len()) =~= n@);
    }
    true
}

/// Index of the first occurrence of `n` in `h` at or after `from`.
pub fn find_str(h: &str, n: &str, from: usize) -> (r: Option<usize>)
    requires
        from <= h@.len(),
    ensures
        match r {
            Some(j) => from <= j && find_from(h@, n@, from as int) == Some(j as int),
            None => find_from(h@, n@, from as int) is None,
        },
{
    let hl = h.unicode_len();
    let nl = n.unicode_len();
    if nl == 0 {
        proof {
            assert(h@.subrange(from as int, from as int) =~= n@);
        }
        return Some(from);
    }
    if nl > hl {
        return None;
    }
    let mut i: usize = from;
    while i <= hl - nl
        invariant
            from <= i,
            i <= hl,
            hl == h@.len(),
            nl == n@.len(),
            0 < nl <= hl,
            find_from(h@, n@, from as int) == find_from(h@, n@, i as int),
        decreases hl - i,
    {
        if matches_at(h, n, i) {
            return Some(i);
        }
        i = i + 1;
    }
    None
}

/// The count of leading characters of `s` satisfying [`ws`].
pub open spec fn ws_prefix_len(s: Seq<char>) -> int
    decreases s.len(),
{
    if s.len() > 0 && ws(s[0]) {
        1 + ws_prefix_len(s.drop_first())
    } else {
        0
    }
}

/// `s` without its leading whitespace.
pub open spec fn trim_start_spec(s: Seq<char>) -> Seq<char> {
    s.skip(ws_prefix_len(s))
}

/// The count of trailing characters of `s` satisfying [`ws`].
pub open spec fn ws_suffix_len(s: Seq<char>) -> int
    decreases s.len(),
{
    if s.len() > 0 && ws(s[s.len() - 1]) {
        1 + ws_suffix_len(s.drop_last())
    } else {
        0
    }
}

/// `s` without its trailing whitespace.
pub open spec fn trim_end_spec(s: Seq<char>) -> Seq<char> {
    s.take(s.len() - ws_suffix_len(s))
}

/// `s` without leading and trailing whitespace.
pub open spec fn trim_spec(s: Seq<char>) -> Seq<char> {
    trim_end_spec(trim_start_spec(s))
}

/// The leading-whitespace count is the first non-whitespace position.
pub proof fn lemma_ws_prefix(s: Seq<char>)
    ensures
        0 <= ws_prefix_len(s) <= s.len(),
        forall|j: int| 0 <= j < ws_prefix_len(s) ==> ws(s[j]),
        ws_prefix_len(s) < s.len() ==> !ws(s[ws_prefix_len(s)]),
    decreases s.len(),
{
    if s.len() > 0 && ws(s[0]) {
        lemma_ws_prefix(s.drop_first());
        assert forall|j: int| 0 <= j < ws_prefix_len(s) implies ws(s[j]) by {
            if j > 0 {
                assert(s[j] == s.drop_first()[j - 1]);
            }
        }
        if ws_prefix_len(s) < s.len() {
            assert(s[ws_prefix_len(s)] == s.drop_first()[ws_prefix_len(s) - 1]);
        }
    }
}

/// The trailing-whitespace count is the distance from the last
/// non-whitespace position to the end.
pub proof fn lemma_ws_suffix(s: Seq<char>)
    ensures
        0 <= ws_suffix_len(s) <= s.len(),
        forall|j: int| s.len() - ws_suffix_len(s) <= j < s.len() ==> ws(s[j]),
        ws_suffix_len(s) < s.len() ==> !ws(s[s.len() - ws_suffix_len(s) - 1]),
    decreases s.len(),
{
    if s.len() > 0 && ws(s[s.len() - 1]) {
        lemma_ws_suffix(s.drop_last());
        let t = s.drop_last();
        assert forall|j: int| s.len() - ws_suffix_len(s) <= j < s.len() implies ws(s[j]) by {
            if j < s.len() - 1 {
                assert(s[j] == t[j]);
            }
        }
    }
}

/// A whitespace prefix count is determined by its bounds.
pub proof fn lemma_ws_prefix_exact(s: Seq<char>, a: int)
    requires
        0 <= a <= s.len(),
        forall|j: int| 0 <= j < a ==> ws(s[j]),
        a < s.len() ==> !ws(s[a]),
    ensures
        ws_prefix_len(s) == a,
    decreases s.len(),
{
    if s.len() > 0 && ws(s[0]) {
        let t = s.drop_first();
        assert forall|j: int| 0 <= j < a - 1 implies ws(t[j]) by {
            assert(t[j] == s[j + 1]);
        }
        lemma_ws_prefix_exact(t, a - 1);
    }
}

/// A whitespace suffix count is determined by its bounds.
pub proof fn lemma_ws_suffix_exact(s: Seq<char>, a: int)
    requires
        0 <= a <= s.len(),
        forall|j: int| s.len() - a <= j < s.len() ==> ws(s[j]),
        a < s.len() ==> !ws(s[s.len() - a - 1]),
    ensures
        ws_suffix_len(s) == a,
    decreases s.len(),
{
    if s.len() > 0 && ws(s[s.len() - 1]) {
        let t = s.drop_last();
        assert forall|j: int| t.len() - (a - 1) <= j < t.len() implies ws(t[j]) by {
            assert(t[j] == s[j]);
        }
        lemma_ws_suffix_exact(t, a - 1);
    } else {
        if a != 0 {
            assert(ws(s[s.len() - 1]));
        }
    }
}

/// `s` with leading whitespace removed.
pub fn trim_start(s: &str) -> (r: &str)
    ensures
        r@ == trim_start_spec(s@),
{
    let n = s.unicode_len();
    let mut a: usize = 0;
    while a < n && is_ws(s.get_char(a))
        invariant
            a <= n,
            n == s@.len(),
            forall|j: int| 0 <= j < a ==> ws(s@[j]),
        decreases n - a,
    {
        a = a + 1;
    }
    proof {
        lemma_ws_prefix_exact(s@, a as int);
    }
    s.substring_char(a, n)
}

/// `s` with leading and trailing whitespace removed.
pub fn trim(s: &str) -> (r: &str)
    ensures
        r@ == trim_spec(s@),
{
    let n = s.unicode_len();
    let mut a: usize = 0;
    while a < n && is_ws(s.get_char(a))
        invariant
            a <= n,
            n == s@.len(),
            forall|j: int| 0 <= j < a ==> ws(s@[j]),
        decreases n - a,
    {
        a = a + 1;
    }
    let mut b: usize = n;
    while b > a && is_ws(s.get_char(b - 1))
        invariant
            a <= b <= n,
            n == s@.len(),
            forall|j: int| 0 <= j < a ==> ws(s@[j]),
            forall|j: int| b <= j < n ==> ws(s@[j]),
        decreases b,
    {
        b = b - 1;
    }
    proof {
        lemma_ws_prefix_exact(s@, a as int);
        let t = trim_start_spec(s@);
        assert(t =~= s@.subrange(a as int, n as int));
        assert forall|j: int| t.len() - (n - b) <= j < t.len() implies ws(t[j]) by {
            assert(t[j] == s@[j + a]);
        }
        if b > a {
            assert(t[b - a - 1] == s@[b - 1]);
        }
        lemma_ws_suffix_exact(t, n - b);
        assert(trim_spec(s@) =~= s@.subrange(a as int, b as int));
    }
    s.substring_char(a, b)
}

/// Case-insensitive ASCII equality of two characters.
pub open spec fn eq_ignore_ascii_case_char(a: char, b: char) -> bool {
    a == b || (('a' <= a && a <= 'z') && b as int == a as int - 32) || (('A' <= a && a <= 'Z')
        && b as int == a as int + 32)
}

/// Whether `n` occurs at the start of `h`, ignoring ASCII case.
pub fn matches_at_ignore_case(h: &str, n: &str, at: usize) -> (r: bool)
    requires
        at <= h@.len(),
    ensures
        r == (at + n@.len() <= h@.len() && (forall|j: int|
            0 <= j < n@.len() ==> eq_ignore_ascii_case_char(h@[at + j], n@[j]))),
{
    let hl = h.unicode_len();
    let nl = n.unicode_len();
    if nl > hl || at > hl - nl {
        return false;
    }
    let mut k: usize = 0;
    while k < nl
        invariant
            k <= nl,
            nl == n@.len(),
            hl == h@.len(),
            at + nl <= hl,
            forall|j: int| 0 <= j < k ==> eq_ignore_ascii_case_char(h@[at + j], n@[j]),
        decreases nl - k,
    {
        let a = h.get_char(at + k);
        let b = n.get_char(k);
        let a32 = a as u32;
        let b32 = b as u32;
        let eq = a == b || (a32 >= 'a' as u32 && a32 <= 'z' as u32 && b32 + 32 == a32) || (a32
            >= 'A' as u32 && a32 <= 'Z' as u32 && b32 == a32 + 32);
        if !eq {
            proof {
                assert(a32 == a as int && b32 == b as int);
            }
            return false;
        }
        k = k + 1;
    }
    true
}

} // verus!
