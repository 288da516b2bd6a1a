//! Byte-level text helpers: whitespace trimming, comment stripping and
//! substring search, each with an exact specification.

use vstd::prelude::*;

verus! {

/// The comment delimiter, an ASCII semicolon: everything from its first
/// occurrence to the end of the line is discarded before a line is
/// considered a command.
pub open spec fn delim() -> u8 {
    59u8
}

/// ASCII whitespace: tab, line feed, vertical tab, form feed, carriage
/// return, space.
pub open spec fn is_space(b: u8) -> bool {
    b == 9u8 || b == 10u8 || b == 11u8 || b == 12u8 || b == 13u8 || b == 32u8
}

/// The sequence with leading and trailing whitespace removed.
pub open spec fn trim_spec(s: Seq<u8>) -> Seq<u8>
    decreases s.len(),
{
    if s.len() == 0 {
        s
    } else if is_space(s[0]) {
        trim_spec(s.drop_first())
    } else if is_space(s[s.len() - 1]) {
        trim_spec(s.drop_last())
    } else {
        s
    }
}

/// The index of the first comment delimiter, or the length of the sequence
/// when it holds none.
pub open spec fn comment_start(s: Seq<u8>) -> int
    decreases s.len(),
{
    if s.len() == 0 {
        0
    } else if s[0] == delim() {
        0
    } else {
        1 + comment_start(s.drop_first())
    }
}

/// The part of the line before its first comment delimiter.
pub open spec fn before_comment(s: Seq<u8>) -> Seq<u8> {
    s.subrange(0, comment_start(s))
}

/// A raw line normalized into command text: the comment discarded and the
/// remainder trimmed.  A line whose normalization is empty yields no command.
pub open spec fn normalize_spec(s: Seq<u8>) -> Seq<u8> {
    trim_spec(before_comment(s))
}

/// The pattern occurs in `s` at position `i`.
pub open spec fn matches_at(s: Seq<u8>, p: Seq<u8>, i: int) -> bool {
    0 <= i && i + p.len() <= s.len() && s.subrange(i, i + p.len()) == p
}

/// The pattern occurs somewhere in `s`.
pub open spec fn contains_spec(s: Seq<u8>, p: Seq<u8>) -> bool {
    exists|i: int| matches_at(s, p, i)
}

/// The sequence begins with the pattern.
pub open spec fn starts_with_spec(s: Seq<u8>, p: Seq<u8>) -> bool {
    p.len() <= s.len() && s.subrange(0, p.len() as int) == p
}

/// `comment_start` is the unique position that no delimiter precedes and
/// that holds one unless the line holds none at all.
pub proof fn lemma_comment_start_at(s: Seq<u8>, i: int)
    requires
        0 <= i <= s.len(),
        forall|k: int| 0 <= k < i ==> s[k] != delim(),
        i < s.len() ==> s[i] == delim(),
    ensures
        comment_start(s) == i,
    decreases s.len(),
{
    if s.len() == 0 {
    } else if s[0] == delim() {
        assert(i == 0);
    } else {
        let t = s.drop_first();
        assert(forall|k: int| 0 <= k < i - 1 ==> t[k] == s[k + 1] && t[k] != delim());
        lemma_comment_start_at(t, i - 1);
    }
}

/// The bytes before `comment_start` are delimiter-free, and the one at it,
/// if any, is the delimiter.
pub proof fn lemma_comment_start_bounds(s: Seq<u8>)
    ensures
        0 <= comment_start(s) <= s.len(),
        forall|k: int| 0 <= k < comment_start(s) ==> s[k] != delim(),
        comment_start(s) < s.len() ==> s[comment_start(s)] == delim(),
    decreases s.len(),
{
    if s.len() == 0 {
    } else if s[0] == delim() {
    } else {
        let t = s.drop_first();
        lemma_comment_start_bounds(t);
        assert(comment_start(s) == 1 + comment_start(t));
        assert forall|k: int| 0 <= k < comment_start(s) implies s[k] != delim() by {
            if k > 0 {
                assert(s[k] == t[k - 1]);
            }
        }
        if comment_start(s) < s.len() {
            assert(s[comment_start(s)] == t[comment_start(t)]);
        }
    }
}

/// Trimming a sequence of nothing but whitespace leaves nothing.
pub proof fn lemma_trim_all_space(s: Seq<u8>)
    requires
        forall|i: int| 0 <= i < s.len() ==> is_space(s[i]),
    ensures
        trim_spec(s).len() == 0,
    decreases s.len(),
{
    if s.len() > 0 {
        let t = s.drop_first();
        assert(forall|i: int| 0 <= i < t.len() ==> t[i] == s[i + 1] && is_space(t[i]));
        lemma_trim_all_space(t);
    }
}

/// Law: on a line holding the comment delimiter, normalization yields the
/// trimmed prefix before the first occurrence, whatever stands after it —
/// further delimiters included.
pub proof fn lemma_normalize_ignores_comment(head: Seq<u8>, tail: Seq<u8>)
    requires
        forall|i: int| 0 <= i < head.len() ==> head[i] != delim(),
    ensures
        normalize_spec(head + seq![delim()] + tail) == trim_spec(head),
{
    let s = head + seq![delim()] + tail;
    assert(forall|k: int| 0 <= k < head.len() ==> s[k] == head[k]);
    assert(s[head.len() as int] == delim());
    lemma_comment_start_at(s, head.len() as int);
    assert(before_comment(s) =~= head);
}

/// Law: a line of nothing but whitespace and comment normalizes to
/// nothing, so no command arises from it.
pub proof fn lemma_blank_line_yields_nothing(s: Seq<u8>)
    requires
        forall|i: int| 0 <= i < comment_start(s) ==> is_space(s[i]),
    ensures
        normalize_spec(s).len() == 0,
{
    lemma_comment_start_bounds(s);
    let b = before_comment(s);
    assert(forall|i: int| 0 <= i < b.len() ==> b[i] == s[i] && is_space(b[i]));
    lemma_trim_all_space(b);
}

/// Runtime test for `is_space`.
fn is_space_byte(b: u8) -> (r: bool)
    ensures
        r == is_space(b),
{
    b == 9u8 || b == 10u8 || b == 11u8 || b == 12u8 || b == 13u8 || b == 32u8
}

/// The line up to (and excluding) its first comment delimiter.
fn take_before_comment(s: &Vec<u8>) -> (r: Vec<u8>)
    ensures
        r@ == before_comment(s@),
{
    let mut out: Vec<u8> = Vec::new();
    let mut i: usize = 0;
    while i < s.len() && s[i] != 59u8
        invariant
            0 <= i <= s@.len(),
            forall|k: int| 0 <= k < i ==> s@[k] != delim(),
            out@ == s@.subrange(0, i as int),
        decreases s@.len() - i,
    {
        out.push(s[i]);
        assert(out@ =~= s@.subrange(0, i + 1));
        i = i + 1;
    }
    proof {
        lemma_comment_start_at(s@, i as int);
    }
    out
}

/// The byte vector with leading and trailing whitespace removed.
pub fn trim_bytes(s: &Vec<u8>) -> (r: Vec<u8>)
    ensures
        r@ == trim_spec(s@),
{
    let mut lo: usize = 0;
    let mut hi: usize = s.len();
    proof {
        assert(s@.subrange(0, s@.len() as int) =~= s@);
    }
    while lo < hi && is_space_byte(s[lo])
        invariant
            0 <= lo <= hi <= s@.len(),
            trim_spec(s@.subrange(lo as int, hi as int)) == trim_spec(s@),
        decreases hi - lo,
    {
        proof {
            let sub = s@.subrange(lo as int, hi as int);
            assert(sub[0] == s@[lo as int]);
            assert(sub.drop_first() =~= s@.subrange(lo + 1, hi as int));
        }
        lo = lo + 1;
    }
    while lo < hi && is_space_byte(s[hi - 1])
        invariant
            0 <= lo <= hi <= s@.len(),
            trim_spec(s@.subrange(lo as int, hi as int)) == trim_spec(s@),
            lo < hi ==> !is_space(s@[lo as int]),
        decreases hi - lo,
    {
        proof {
            let sub = s@.subrange(lo as int, hi as int);
            assert(sub[0] == s@[lo as int]);
            assert(sub[sub.len() - 1] == s@[hi - 1]);
            assert(sub.drop_last() =~= s@.subrange(lo as int, hi - 1));
        }
        hi = hi - 1;
    }
    proof {
        let sub = s@.subrange(lo as int, hi as int);
        if lo < hi {
            assert(sub[0] == s@[lo as int]);
            assert(sub[sub.len() - 1] == s@[hi - 1]);
            assert(trim_spec(sub) == sub);
        }
    }
    let mut out: Vec<u8> = Vec::new();
    let mut j: usize = lo;
    while j < hi
        invariant
            lo <= j <= hi <= s@.len(),
            out@ == s@.subrange(lo as int, j as int),
        decreases hi - j,
    {
        out.push(s[j]);
        assert(out@ =~= s@.subrange(lo as int, j + 1));
        j = j + 1;
    }
    proof {
        if lo == hi {
            assert(s@.subrange(lo as int, hi as int) =~= Seq::<u8>::empty());
        }
    }
    out
}

/// A raw line normalized into command text: the comment discarded, the rest
/// trimmed.  Yields nothing when no command text remains.
pub fn normalize_line(raw: &Vec<u8>) -> (r: Option<Vec<u8>>)
    ensures
        r is Some <==> normalize_spec(raw@).len() > 0,
        r matches Some(c) ==> c@ == normalize_spec(raw@),
{
    let head = take_before_comment(raw);
    let trimmed = trim_bytes(&head);
    if trimmed.len() == 0 {
        None
    } else {
        Some(trimmed)
    }
}

/// The pattern occurs in `s` starting at `i`.
fn matches_from(s: &Vec<u8>, p: &Vec<u8>, i: usize) -> (r: bool)
    requires
        i + p@.len() <= s@.len(),
    ensures
        r == matches_at(s@, p@, i as int),
{
    let n = s.len();
    let m = p.len();
    let mut j: usize = 0;
    while j < m
        invariant
            0 <= j <= p@.len(),
            n == s@.len(),
            m == p@.len(),
            i + p@.len() <= s@.len(),
            forall|k: int| 0 <= k < j ==> s@[i + k] == p@[k],
        decreases p@.len() - j,
    {
        assert(i + j < n);
        if s[i + j] != p[j] {
            proof {
                let sub = s@.subrange(i as int, i + p@.len());
                assert(sub[j as int] == s@[i + j]);
            }
            return false;
        }
        j = j + 1;
    }
    proof {
        assert(s@.subrange(i as int, i + p@.len()) =~= p@);
    }
    true
}

/// The byte vector holds the pattern somewhere.
pub fn contains_bytes(s: &Vec<u8>, p: &Vec<u8>) -> (r: bool)
    ensures
        r == contains_spec(s@, p@),
{
    if p.len() > s.len() {
        proof {
            assert(forall|i: int| !matches_at(s@, p@, i));
        }
        return false;
    }
    if p.len() == 0 {
        proof {
            assert(s@.subrange(0, 0) =~= p@);
            assert(matches_at(s@, p@, 0));
        }
        return true;
    }
    let bound = s.len() - p.len();
    let mut i: usize = 0;
    while i <= bound
        invariant
            0 <= i <= bound + 1,
            1 <= p@.len() <= s@.len(),
            bound == s@.len() - p@.len(),
            bound < usize::MAX,
            forall|k: int| 0 <= k < i ==> !matches_at(s@, p@, k),
        decreases bound + 1 - i,
    {
        if matches_from(s, p, i) {
            assert(contains_spec(s@, p@));
            return true;
        }
        i = i + 1;
    }
    proof {
        assert(forall|k: int| k > bound ==> !matches_at(s@, p@, k));
    }
    false
}

/// The byte vector begins with the pattern.
pub fn starts_with_bytes(s: &Vec<u8>, p: &Vec<u8>) -> (r: bool)
    ensures
        r == starts_with_spec(s@, p@),
{
    if p.len() > s.len() {
        return false;
    }
    matches_from(s, p, 0)
}

} // verus!
