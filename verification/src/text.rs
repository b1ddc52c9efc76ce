//! Text operations on header values: removing a marker, trimming blanks.
//!
//! A header value that reads as text holds ASCII only, so a byte is a
//! character here and the operations are stated over `Seq<u8>`.

use vstd::prelude::*;
use vstd::string::*;

verus! {

/// Whether `pattern` occurs in `text` starting at position `at`.
pub open spec fn occurs_at(text: Seq<u8>, pattern: Seq<u8>, at: int) -> bool {
    &&& 0 <= at
    &&& at + pattern.len() <= text.len()
    &&& text.subrange(at, at + pattern.len()) == pattern
}

/// `text` with every occurrence of `pattern` taken out. Occurrences are
/// found from the left and do not overlap; an empty pattern removes nothing.
pub open spec fn without(text: Seq<u8>, pattern: Seq<u8>) -> Seq<u8>
    decreases text.len(),
{
    if pattern.len() == 0 || text.len() < pattern.len() {
        text
    } else if occurs_at(text, pattern, 0) {
        without(text.skip(pattern.len() as int), pattern)
    } else {
        seq![text[0]] + without(text.skip(1), pattern)
    }
}

/// ASCII white space: space, tab, line feed, vertical tab, form feed,
/// carriage return.
pub open spec fn is_blank(b: u8) -> bool {
    b == 32 || (9 <= b && b <= 13)
}

/// `text` without its leading blanks.
pub open spec fn trim_start(text: Seq<u8>) -> Seq<u8>
    decreases text.len(),
{
    if text.len() > 0 && is_blank(text[0]) {
        trim_start(text.skip(1))
    } else {
        text
    }
}

/// `text` without its trailing blanks.
pub open spec fn trim_end(text: Seq<u8>) -> Seq<u8>
    decreases text.len(),
{
    if text.len() > 0 && is_blank(text.last()) {
        trim_end(text.drop_last())
    } else {
        text
    }
}

/// `text` without leading and trailing blanks.
pub open spec fn trimmed(text: Seq<u8>) -> Seq<u8> {
    trim_end(trim_start(text))
}

/// Tells whether `pattern` occurs in `text` at `at`.
pub fn matches_at(text: &[u8], pattern: &[u8], at: usize) -> (found: bool)
    ensures
        found == occurs_at(text@, pattern@, at as int),
{
    if at > text.len() || pattern.len() > text.len() - at {
        return false;
    }
    let mut k: usize = 0;
    while k < pattern.len()
        invariant
            at + pattern.len() <= text.len(),
            k <= pattern.len(),
            forall|j: int| 0 <= j < k ==> text@[at + j] == pattern@[j],
        decreases pattern.len() - k,
    {
        if text[at + k] != pattern[k] {
            assert(text@.subrange(at as int, at + pattern.len())[k as int] != pattern@[k as int]);
            return false;
        }
        k += 1;
    }
    assert(text@.subrange(at as int, at + pattern.len()) =~= pattern@);
    true
}

/// Removes every occurrence of `pattern` from `text`.
pub fn remove_all(text: &[u8], pattern: &[u8]) -> (out: Vec<u8>)
    ensures
        out@ == without(text@, pattern@),
{
    let mut out: Vec<u8> = Vec::new();
    let mut i: usize = 0;
    if pattern.len() == 0 {
        while i < text.len()
            invariant
                i <= text.len(),
                out@ == text@.take(i as int),
            decreases text.len() - i,
        {
            out.push(text[i]);
            assert(text@.take(i + 1) =~= text@.take(i as int).push(text@[i as int]));
            i += 1;
        }
        assert(text@.take(text.len() as int) =~= text@);
        return out;
    }
    assert(text@.skip(0) =~= text@);
    while i < text.len()
        invariant
            i <= text.len(),
            pattern.len() > 0,
            without(text@, pattern@) == out@ + without(text@.skip(i as int), pattern@),
        decreases text.len() - i,
    {
        let ghost rest = text@.skip(i as int);
        if matches_at(text, pattern, i) {
            assert(rest.subrange(0, pattern@.len() as int) =~= text@.subrange(
                i as int,
                i + pattern@.len(),
            ));
            assert(rest.skip(pattern@.len() as int) =~= text@.skip(i + pattern@.len()));
            i += pattern.len();
        } else {
            proof {
                assert(rest.skip(1) =~= text@.skip(i + 1));
                assert(rest =~= seq![rest[0]] + rest.skip(1));
                if rest.len() >= pattern@.len() {
                    assert(rest.subrange(0, pattern@.len() as int) =~= text@.subrange(
                        i as int,
                        i + pattern@.len(),
                    ));
                }
                assert(out@.push(text@[i as int]) + without(rest.skip(1), pattern@) =~= out@ + (
                seq![rest[0]] + without(rest.skip(1), pattern@)));
            }
            out.push(text[i]);
            i += 1;
        }
    }
    assert(text@.skip(i as int) =~= Seq::<u8>::empty());
    assert(out@ + Seq::<u8>::empty() =~= out@);
    out
}

/// A text in which the pattern does not occur stays as it is.
pub proof fn lemma_without_absent(text: Seq<u8>, pattern: Seq<u8>)
    requires
        forall|at: int| !occurs_at(text, pattern, at),
    ensures
        without(text, pattern) == text,
    decreases text.len(),
{
    if pattern.len() > 0 && text.len() >= pattern.len() {
        assert(!occurs_at(text, pattern, 0));
        let rest = text.skip(1);
        assert forall|at: int| !occurs_at(rest, pattern, at) by {
            if occurs_at(rest, pattern, at) {
                assert(text.subrange(at + 1, at + 1 + pattern.len()) =~= rest.subrange(
                    at,
                    at + pattern.len(),
                ));
                assert(occurs_at(text, pattern, at + 1));
            }
        }
        lemma_without_absent(rest, pattern);
        assert(seq![text[0]] + rest =~= text);
    }
}

/// `trim_start` drops a run of leading blanks.
pub proof fn lemma_trim_start_skips(text: Seq<u8>, n: int)
    requires
        0 <= n <= text.len(),
        forall|j: int| 0 <= j < n ==> is_blank(#[trigger] text[j]),
    ensures
        trim_start(text) == trim_start(text.skip(n)),
    decreases n,
{
    if n == 0 {
        assert(text.skip(0) =~= text);
    } else {
        assert(is_blank(text[0]));
        assert forall|j: int| 0 <= j < n - 1 implies is_blank(#[trigger] text.skip(1)[j]) by {
            assert(text.skip(1)[j] == text[j + 1]);
        }
        lemma_trim_start_skips(text.skip(1), n - 1);
        assert(text.skip(1).skip(n - 1) =~= text.skip(n));
    }
}

/// `trim_end` drops a run of trailing blanks.
pub proof fn lemma_trim_end_takes(text: Seq<u8>, n: int)
    requires
        0 <= n <= text.len(),
        forall|j: int| n <= j < text.len() ==> is_blank(#[trigger] text[j]),
    ensures
        trim_end(text) == trim_end(text.take(n)),
    decreases text.len() - n,
{
    if n == text.len() {
        assert(text.take(n) =~= text);
    } else {
        assert(is_blank(text.last()));
        lemma_trim_end_takes(text.drop_last(), n);
        assert(text.drop_last().take(n) =~= text.take(n));
    }
}

/// Removes leading and trailing blanks.
pub fn trim(text: &[u8]) -> (out: Vec<u8>)
    ensures
        out@ == trimmed(text@),
{
    let mut start: usize = 0;
    while start < text.len() && is_blank_byte(text[start])
        invariant
            start <= text.len(),
            forall|j: int| 0 <= j < start ==> is_blank(#[trigger] text@[j]),
        decreases text.len() - start,
    {
        start += 1;
    }
    let mut end: usize = text.len();
    while end > start && is_blank_byte(text[end - 1])
        invariant
            start <= end <= text.len(),
            forall|j: int| end <= j < text.len() ==> is_blank(#[trigger] text@[j]),
        decreases end - start,
    {
        end -= 1;
    }
    let ghost head = text@.skip(start as int);
    proof {
        lemma_trim_start_skips(text@, start as int);
        assert(trim_start(text@) == head) by {
            if start < text.len() {
                assert(head[0] == text@[start as int]);
            }
        }
        assert forall|j: int| end - start <= j < head.len() implies is_blank(#[trigger] head[j]) by {
            assert(head[j] == text@[start + j]);
        }
        lemma_trim_end_takes(head, end - start);
        assert(trim_end(head.take(end - start)) == head.take(end - start)) by {
            if end > start {
                assert(head.take(end - start).last() == text@[end - 1]);
            }
        }
        assert(head.take(end - start) =~= text@.subrange(start as int, end as int));
    }
    let mut out: Vec<u8> = Vec::new();
    let mut i: usize = start;
    while i < end
        invariant
            start <= i <= end <= text.len(),
            out@ == text@.subrange(start as int, i as int),
        decreases end - i,
    {
        out.push(text[i]);
        assert(text@.subrange(start as int, i + 1) =~= text@.subrange(start as int, i as int).push(
            text@[i as int],
        ));
        i += 1;
    }
    out
}

/// The characters of `s`, in order.
pub fn chars_of(s: &str) -> (chars: Vec<char>)
    ensures
        chars@ == s@,
{
    let mut chars: Vec<char> = Vec::new();
    for c in it: s.chars()
        invariant
            chars@ == it.seq().take(it.index() as int),
            it.seq() == s@,
    {
        chars.push(c);
        assert(it.seq().take(it.index() + 1) =~= it.seq().take(it.index() as int).push(c));
    }
    assert(s@.take(s@.len() as int) =~= s@);
    chars
}

/// Executable form of `is_blank`.
pub fn is_blank_byte(b: u8) -> (blank: bool)
    ensures
        blank == is_blank(b),
{
    b == 32 || (9 <= b && b <= 13)
}

} // verus!
