//! Verified string primitives: character classes, equality, pattern
//! search, trimming, repeated prefix/suffix stripping, and collapsing of
//! doubled characters. Specifications are stated over `Seq<char>` views.

use vstd::prelude::*;
use vstd::string::StrSliceExecFns;
use vstd::string::StringExecFns;

verus! {

/// An ASCII whitespace character, as trimming understands it.
pub open spec fn is_space(c: char) -> bool {
    c == ' ' || c == '\t' || c == '\n' || c == '\r' || c == '\u{b}' || c == '\u{c}'
}

/// A word character: an ASCII letter, a digit, or an underscore.
pub open spec fn is_word_char(c: char) -> bool {
    ('0' <= c && c <= '9') || ('A' <= c && c <= 'Z') || c == '_' || ('a' <= c && c <= 'z')
}

/// Whether `c` is an ASCII whitespace character.
pub fn space_char(c: char) -> (b: bool)
    ensures
        b == is_space(c),
{
    c == ' ' || c == '\t' || c == '\n' || c == '\r' || c == '\u{b}' || c == '\u{c}'
}

/// Whether `c` is a word character.
pub fn word_char(c: char) -> (b: bool)
    ensures
        b == is_word_char(c),
{
    ('0' <= c && c <= '9') || ('A' <= c && c <= 'Z') || c == '_' || ('a' <= c && c <= 'z')
}

/// Character-for-character equality of two string slices.
pub fn str_eq(a: &str, b: &str) -> (r: bool)
    ensures
        r == (a@ == b@),
{
    let alen = a.unicode_len();
    let blen = b.unicode_len();
    if alen != blen {
        proof {
            assert(a@ != b@) by {
                assert(a@.len() != b@.len());
            }
        }
        return false;
    }
    let mut i: usize = 0;
    while i < alen
        invariant
            i <= alen,
            alen == a@.len(),
            alen == b@.len(),
            forall|j: int| 0 <= j < i ==> a@[j] == b@[j],
        decreases alen - i,
    {
        if a.get_char(i) != b.get_char(i) {
            return false;
        }
        i = i + 1;
    }
    proof {
        assert(a@ =~= b@);
    }
    true
}

/// Whether the pattern `p` occurs in `s` starting exactly at index `i`.
pub open spec fn occurs_at(s: Seq<char>, p: Seq<char>, i: int) -> bool {
    0 <= i && i + p.len() <= s.len() && s.subrange(i, i + p.len() as int) == p
}

/// Whether `p` occurs in `s` at index `i`.
pub fn has_seq_at(s: &str, i: usize, p: &str) -> (b: bool)
    requires
        i <= s@.len(),
    ensures
        b == occurs_at(s@, p@, i as int),
{
    let slen = s.unicode_len();
    let plen = p.unicode_len();
    if plen > slen - i {
        return false;
    }
    let mut k: usize = 0;
    while k < plen
        invariant
            k <= plen,
            i + plen <= slen,
            slen == s@.len(),
            plen == p@.len(),
            forall|j: int| 0 <= j < k ==> s@[i + j] == p@[j],
        decreases plen - k,
    {
        if s.get_char(i + k) != p.get_char(k) {
            proof {
                assert(s@.subrange(i as int, i + p@.len() as int)[k as int] == s@[i + k]);
            }
            return false;
        }
        k = k + 1;
    }
    proof {
        assert(s@.subrange(i as int, i + p@.len() as int) =~= p@);
    }
    true
}

/// The position of the first occurrence of `p` in `s` at or after `k`.
pub open spec fn first_occurrence(s: Seq<char>, p: Seq<char>, k: int) -> Option<int>
    decreases s.len() - k,
{
    if p.len() == 0 || k < 0 || k + p.len() > s.len() {
        if p.len() == 0 && 0 <= k <= s.len() {
            Some(k)
        } else {
            None
        }
    } else if occurs_at(s, p, k) {
        Some(k)
    } else {
        first_occurrence(s, p, k + 1)
    }
}

/// What a `Some` answer of `first_occurrence` guarantees.
pub proof fn lemma_first_occurrence_some(s: Seq<char>, p: Seq<char>, k: int, m: int)
    requires
        first_occurrence(s, p, k) == Some(m),
    ensures
        k <= m,
        occurs_at(s, p, m),
    decreases s.len() - k,
{
    if p.len() == 0 && 0 <= k <= s.len() {
        assert(occurs_at(s, p, k)) by {
            assert(s.subrange(k, k) =~= p);
        }
    } else if !(p.len() == 0 || k < 0 || k + p.len() > s.len()) && !occurs_at(s, p, k) {
        lemma_first_occurrence_some(s, p, k + 1, m);
    }
}

/// Finds the first occurrence of `p` in `s` at or after index `from`.
pub fn find_from(s: &str, from: usize, p: &str) -> (r: Option<usize>)
    requires
        from <= s@.len(),
        p@.len() > 0,
    ensures
        match r {
            Some(m) => first_occurrence(s@, p@, from as int) == Some(m as int) && m
                + p@.len() <= s@.len(),
            None => first_occurrence(s@, p@, from as int) is None,
        },
{
    let slen = s.unicode_len();
    let plen = p.unicode_len();
    let mut k: usize = from;
    loop
        invariant
            from <= k <= slen,
            slen == s@.len(),
            plen == p@.len(),
            p@.len() > 0,
            first_occurrence(s@, p@, from as int) == first_occurrence(s@, p@, k as int),
        decreases slen - k,
    {
        if plen > slen - k {
            return None;
        }
        if has_seq_at(s, k, p) {
            return Some(k);
        }
        k = k + 1;
    }
}

/// `s` with leading whitespace removed.
pub open spec fn trim_start_spec(s: Seq<char>) -> Seq<char>
    decreases s.len(),
{
    if s.len() > 0 && is_space(s[0]) {
        trim_start_spec(s.subrange(1, s.len() as int))
    } else {
        s
    }
}

/// `s` with trailing whitespace removed.
pub open spec fn trim_end_spec(s: Seq<char>) -> Seq<char>
    decreases s.len(),
{
    if s.len() > 0 && is_space(s[s.len() - 1]) {
        trim_end_spec(s.subrange(0, s.len() - 1))
    } else {
        s
    }
}

/// `s` with whitespace removed from both ends.
pub open spec fn trim_spec(s: Seq<char>) -> Seq<char> {
    trim_end_spec(trim_start_spec(s))
}

proof fn lemma_trim_start_at(s: Seq<char>, a: int)
    requires
        0 <= a <= s.len(),
        forall|j: int| 0 <= j < a ==> is_space(s[j]),
        a == s.len() || !is_space(s[a]),
    ensures
        trim_start_spec(s) == s.subrange(a, s.len() as int),
    decreases a,
{
    if a == 0 {
        assert(s.subrange(0, s.len() as int) =~= s);
    } else {
        let t = s.subrange(1, s.len() as int);
        lemma_trim_start_at(t, a - 1);
        assert(t.subrange(a - 1, t.len() as int) =~= s.subrange(a, s.len() as int));
    }
}

proof fn lemma_trim_end_at(s: Seq<char>, b: int)
    requires
        0 <= b <= s.len(),
        forall|j: int| b <= j < s.len() ==> is_space(s[j]),
        b == 0 || !is_space(s[b - 1]),
    ensures
        trim_end_spec(s) == s.subrange(0, b),
    decreases s.len(),
{
    if b == s.len() {
        assert(s.subrange(0, b) =~= s);
    } else {
        let t = s.subrange(0, s.len() - 1);
        assert(forall|j: int| b <= j < t.len() ==> t[j] == s[j]);
        lemma_trim_end_at(t, b);
        assert(t.subrange(0, b) =~= s.subrange(0, b));
    }
}

/// Removes whitespace from both ends of `s`.
pub fn trim_str(s: &str) -> (r: String)
    ensures
        r@ == trim_spec(s@),
{
    let len = s.unicode_len();
    let mut a: usize = 0;
    while a < len && space_char(s.get_char(a))
        invariant
            a <= len,
            len == s@.len(),
            forall|j: int| 0 <= j < a ==> is_space(s@[j]),
        decreases len - a,
    {
        a = a + 1;
    }
    let mut b: usize = len;
    while b > a && space_char(s.get_char(b - 1))
        invariant
            a <= b <= len,
            len == s@.len(),
            forall|j: int| b <= j < len ==> is_space(s@[j]),
        decreases b,
    {
        b = b - 1;
    }
    proof {
        lemma_trim_start_at(s@, a as int);
        let t = s@.subrange(a as int, s@.len() as int);
        lemma_trim_end_at(t, b - a);
        assert(t.subrange(0, b - a) =~= s@.subrange(a as int, b as int));
    }
    String::from_str(s.substring_char(a, b))
}

/// `s` with every copy of the prefix `p` removed from its start.
pub open spec fn strip_prefix_spec(s: Seq<char>, p: Seq<char>) -> Seq<char>
    decreases s.len(),
{
    if p.len() > 0 && occurs_at(s, p, 0) {
        strip_prefix_spec(s.subrange(p.len() as int, s.len() as int), p)
    } else {
        s
    }
}

/// `s` with every copy of the suffix `p` removed from its end.
pub open spec fn strip_suffix_spec(s: Seq<char>, p: Seq<char>) -> Seq<char>
    decreases s.len(),
{
    if p.len() > 0 && occurs_at(s, p, s.len() - p.len()) {
        strip_suffix_spec(s.subrange(0, s.len() - p.len()), p)
    } else {
        s
    }
}

/// Removes every leading copy of `p` from `s`.
pub fn strip_prefix_repeated(s: &str, p: &str) -> (r: String)
    requires
        p@.len() > 0,
    ensures
        r@ == strip_prefix_spec(s@, p@),
{
    let len = s.unicode_len();
    let plen = p.unicode_len();
    let mut i: usize = 0;
    proof {
        assert(s@.subrange(0, s@.len() as int) =~= s@);
    }
    while has_seq_at(s, i, p)
        invariant
            i <= len,
            len == s@.len(),
            plen == p@.len(),
            p@.len() > 0,
            strip_prefix_spec(s@, p@) == strip_prefix_spec(
                s@.subrange(i as int, s@.len() as int),
                p@,
            ),
        decreases len - i,
    {
        proof {
            let rest = s@.subrange(i as int, s@.len() as int);
            assert(occurs_at(rest, p@, 0)) by {
                assert(rest.subrange(0, p@.len() as int) =~= s@.subrange(
                    i as int,
                    i + p@.len() as int,
                ));
            }
            assert(rest.subrange(p@.len() as int, rest.len() as int) =~= s@.subrange(
                i + p@.len() as int,
                s@.len() as int,
            ));
        }
        i = i + plen;
    }
    proof {
        let rest = s@.subrange(i as int, s@.len() as int);
        if occurs_at(rest, p@, 0) {
            assert(occurs_at(s@, p@, i as int)) by {
                assert(s@.subrange(i as int, i + p@.len() as int) =~= rest.subrange(
                    0,
                    p@.len() as int,
                ));
            }
        }
    }
    String::from_str(s.substring_char(i, len))
}

/// Removes every trailing copy of `p` from `s`.
pub fn strip_suffix_repeated(s: &str, p: &str) -> (r: String)
    requires
        p@.len() > 0,
    ensures
        r@ == strip_suffix_spec(s@, p@),
{
    let len = s.unicode_len();
    let plen = p.unicode_len();
    let mut b: usize = len;
    proof {
        assert(s@.subrange(0, s@.len() as int) =~= s@);
    }
    while b >= plen && has_seq_at(s, b - plen, p)
        invariant
            b <= len,
            len == s@.len(),
            plen == p@.len(),
            p@.len() > 0,
            strip_suffix_spec(s@, p@) == strip_suffix_spec(s@.subrange(0, b as int), p@),
        decreases b,
    {
        proof {
            let rest = s@.subrange(0, b as int);
            assert(occurs_at(rest, p@, rest.len() - p@.len())) by {
                assert(rest.subrange(b - p@.len() as int, b as int) =~= s@.subrange(
                    b - p@.len() as int,
                    b as int,
                ));
            }
            assert(rest.subrange(0, rest.len() - p@.len()) =~= s@.subrange(
                0,
                b - p@.len() as int,
            ));
        }
        b = b - plen;
    }
    proof {
        let rest = s@.subrange(0, b as int);
        if p@.len() <= b {
            if occurs_at(rest, p@, rest.len() - p@.len()) {
                assert(occurs_at(s@, p@, b - p@.len()) && b >= p@.len()) by {
                    assert(s@.subrange(b - p@.len() as int, b as int) =~= rest.subrange(
                        b - p@.len() as int,
                        b as int,
                    ));
                }
            }
        }
    }
    String::from_str(s.substring_char(0, b))
}

/// `s` with every doubled `c` collapsed to a single `c`, scanning left to
/// right over non-overlapping pairs.
pub open spec fn collapse_pairs_spec(s: Seq<char>, c: char) -> Seq<char>
    decreases s.len(),
{
    if s.len() >= 2 && s[0] == c && s[1] == c {
        seq![c] + collapse_pairs_spec(s.subrange(2, s.len() as int), c)
    } else if s.len() >= 1 {
        seq![s[0]] + collapse_pairs_spec(s.subrange(1, s.len() as int), c)
    } else {
        Seq::empty()
    }
}

/// Collapses every doubled `c` in `s` to a single `c`.
pub fn collapse_pairs(s: &str, c: char) -> (r: String)
    ensures
        r@ == collapse_pairs_spec(s@, c),
{
    let len = s.unicode_len();
    let mut out = String::new();
    let mut i: usize = 0;
    proof {
        assert(s@.subrange(0, s@.len() as int) =~= s@);
    }
    while i < len
        invariant
            i <= len,
            len == s@.len(),
            collapse_pairs_spec(s@, c) == out@ + collapse_pairs_spec(
                s@.subrange(i as int, s@.len() as int),
                c,
            ),
        decreases len - i,
    {
        let ghost rest = s@.subrange(i as int, s@.len() as int);
        if i + 1 < len && s.get_char(i) == c && s.get_char(i + 1) == c {
            out.append(s.substring_char(i, i + 1));
            proof {
                assert(rest.subrange(2, rest.len() as int) =~= s@.subrange(
                    i + 2,
                    s@.len() as int,
                ));
                assert(s@.subrange(i as int, i + 1) =~= seq![c]);
                assert(out@ + collapse_pairs_spec(s@.subrange(i + 2, s@.len() as int), c)
                    =~= collapse_pairs_spec(s@, c));
            }
            i = i + 2;
        } else {
            out.append(s.substring_char(i, i + 1));
            proof {
                assert(rest.subrange(1, rest.len() as int) =~= s@.subrange(
                    i + 1,
                    s@.len() as int,
                ));
                assert(s@.subrange(i as int, i + 1) =~= seq![s@[i as int]]);
                assert(out@ + collapse_pairs_spec(s@.subrange(i + 1, s@.len() as int), c)
                    =~= collapse_pairs_spec(s@, c));
            }
            i = i + 1;
        }
    }
    proof {
        assert(out@ =~= collapse_pairs_spec(s@, c));
    }
    out
}

} // verus!
