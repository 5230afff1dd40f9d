//! The tag-delimited call grammar: non-overlapping occurrences of
//! `<function=NAME>ARGS</function>`, where NAME is one or more word
//! characters and ARGS is the shortest stretch up to the next closing
//! tag. The scan walks left to right; an occurrence is recognised at the
//! leftmost position where the whole pattern matches.

use vstd::prelude::*;
use vstd::string::StrSliceExecFns;
use vstd::string::StringExecFns;

use crate::text::find_from;
use crate::text::first_occurrence;
use crate::text::has_seq_at;
use crate::text::is_word_char;
use crate::text::lemma_first_occurrence_some;
use crate::text::occurs_at;
use crate::text::word_char;

verus! {

/// The opening delimiter of a call occurrence.
pub open spec fn open_tag() -> Seq<char> {
    "<function="@
}

/// The closing delimiter of a call occurrence.
pub open spec fn close_tag() -> Seq<char> {
    "</function>"@
}

/// One recognised call occurrence: the tool name and the raw argument
/// text between the delimiters.
pub ghost struct RawCall {
    pub name: Seq<char>,
    pub args: Seq<char>,
}

/// A recognised occurrence together with the index just past it.
pub ghost struct RawMatch {
    pub name: Seq<char>,
    pub args: Seq<char>,
    pub end: int,
}

/// The first index at or after `j` that does not continue a run of word
/// characters.
pub open spec fn word_run_end(s: Seq<char>, j: int) -> int
    decreases s.len() - j,
{
    if 0 <= j && j < s.len() && is_word_char(s[j]) {
        word_run_end(s, j + 1)
    } else {
        j
    }
}

/// The full pattern match starting exactly at index `i`, if there is
/// one: the opening delimiter, a non-empty name run, `>`, and the
/// nearest closing delimiter after the arguments.
pub open spec fn tag_match_at(s: Seq<char>, i: int) -> Option<RawMatch> {
    if occurs_at(s, open_tag(), i) {
        let j = i + open_tag().len();
        let ne = word_run_end(s, j);
        if ne > j && ne < s.len() && s[ne] == '>' {
            match first_occurrence(s, close_tag(), ne + 1) {
                Some(k) => Some(
                    RawMatch {
                        name: s.subrange(j, ne),
                        args: s.subrange(ne + 1, k),
                        end: k + close_tag().len(),
                    },
                ),
                None => None,
            }
        } else {
            None
        }
    } else {
        None
    }
}

/// Bounds of a recognised occurrence: it ends after `i` and within `s`.
pub proof fn lemma_tag_match_bounds(s: Seq<char>, i: int)
    requires
        tag_match_at(s, i) is Some,
    ensures
        i < tag_match_at(s, i).unwrap().end <= s.len(),
{
    let j = i + open_tag().len();
    let ne = word_run_end(s, j);
    let k = first_occurrence(s, close_tag(), ne + 1).unwrap();
    lemma_first_occurrence_some(s, close_tag(), ne + 1, k);
}

/// All call occurrences in `s` from index `i` on, in source order.
pub open spec fn scan_from(s: Seq<char>, i: int) -> Seq<RawCall>
    decreases s.len() - i,
        via scan_from_decreases
{
    if i < 0 || i >= s.len() {
        Seq::empty()
    } else {
        match tag_match_at(s, i) {
            Some(m) => seq![RawCall { name: m.name, args: m.args }] + scan_from(s, m.end),
            None => scan_from(s, i + 1),
        }
    }
}

#[via_fn]
proof fn scan_from_decreases(s: Seq<char>, i: int) {
    if 0 <= i && i < s.len() {
        if tag_match_at(s, i) is Some {
            lemma_tag_match_bounds(s, i);
        }
    }
}

/// All call occurrences in `s`, in source order.
pub open spec fn scan_calls(s: Seq<char>) -> Seq<RawCall> {
    scan_from(s, 0)
}

/// Attempts the full pattern match at index `i`, returning the name, the
/// raw argument text, and the index just past the closing delimiter.
pub fn try_match(s: &str, i: usize) -> (r: Option<(String, String, usize)>)
    requires
        i < s@.len(),
    ensures
        match r {
            Some(p) => {
                &&& tag_match_at(s@, i as int) is Some
                &&& p.0@ == tag_match_at(s@, i as int).unwrap().name
                &&& p.1@ == tag_match_at(s@, i as int).unwrap().args
                &&& p.2 as int == tag_match_at(s@, i as int).unwrap().end
                &&& i < p.2 <= s@.len()
            },
            None => tag_match_at(s@, i as int) is None,
        },
{
    let len = s.unicode_len();
    if !has_seq_at(s, i, "<function=") {
        return None;
    }
    let j = i + "<function=".unicode_len();
    let mut ne: usize = j;
    while ne < len && word_char(s.get_char(ne))
        invariant
            j <= ne <= len,
            len == s@.len(),
            word_run_end(s@, j as int) == word_run_end(s@, ne as int),
        decreases len - ne,
    {
        ne = ne + 1;
    }
    if !(ne > j && ne < len && s.get_char(ne) == '>') {
        return None;
    }
    proof {
        reveal_strlit("</function>");
    }
    match find_from(s, ne + 1, "</function>") {
        None => None,
        Some(k) => {
            proof {
                lemma_first_occurrence_some(s@, close_tag(), ne + 1, k as int);
            }
            let end = k + "</function>".unicode_len();
            let name = String::from_str(s.substring_char(j, ne));
            let args = String::from_str(s.substring_char(ne + 1, k));
            Some((name, args, end))
        },
    }
}

} // verus!
