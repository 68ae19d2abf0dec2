//! Bytes of a text line: words, keywords and decimal numbers.

pub mod numbers;

use vstd::prelude::*;
use vstd::string::{is_ascii, is_ascii_spec_bytes};

verus! {

/// An ASCII white-space byte: tab, line feed, vertical tab, form feed,
/// carriage return or space.
pub open spec fn is_space(b: u8) -> bool {
    (9 <= b <= 13) || b == 32
}

/// The words of a line: its maximal runs of bytes that are not white space,
/// in order.
pub open spec fn words(s: Seq<u8>) -> Seq<Seq<u8>>
    decreases s.len(),
{
    if s.len() == 0 {
        Seq::empty()
    } else if is_space(s.last()) {
        words(s.drop_last())
    } else if s.len() >= 2 && !is_space(s[s.len() - 2]) {
        let before = words(s.drop_last());
        before.drop_last().push(before.last().push(s.last()))
    } else {
        words(s.drop_last()).push(seq![s.last()])
    }
}

/// The byte sequences that a vector of words holds.
pub open spec fn views(v: Seq<Vec<u8>>) -> Seq<Seq<u8>> {
    v.map_values(|w: Vec<u8>| w@)
}

/// Whether a byte is ASCII white space.
pub fn is_space_byte(b: u8) -> (r: bool)
    ensures
        r == is_space(b),
{
    (9 <= b && b <= 13) || b == 32
}

/// A line that ends in a byte that is no white space has a last word.
proof fn lemma_last_word(s: Seq<u8>)
    requires
        s.len() > 0,
        !is_space(s.last()),
    ensures
        words(s).len() > 0,
    decreases s.len(),
{
    if s.len() >= 2 && !is_space(s[s.len() - 2]) {
        lemma_last_word(s.drop_last());
    }
}

/// No word is empty, and no word holds white space.
pub proof fn lemma_words_are_clean(s: Seq<u8>)
    ensures
        forall|i: int| 0 <= i < words(s).len() ==> (#[trigger] words(s)[i]).len() > 0,
        forall|i: int, j: int|
            0 <= i < words(s).len() && 0 <= j < words(s)[i].len() ==> !is_space(
                #[trigger] words(s)[i][j],
            ),
    decreases s.len(),
{
    if s.len() > 0 {
        let before = words(s.drop_last());
        let now = words(s);
        lemma_words_are_clean(s.drop_last());
        if is_space(s.last()) {
            assert(now == before);
        } else if s.len() >= 2 && !is_space(s[s.len() - 2]) {
            lemma_last_word(s.drop_last());
            let grown = before.last().push(s.last());
            assert forall|i: int| 0 <= i < now.len() implies (#[trigger] now[i]).len() > 0
                && forall|j: int| 0 <= j < now[i].len() ==> !is_space(#[trigger] now[i][j]) by {
                if i < now.len() - 1 {
                    assert(now[i] == before[i]);
                } else {
                    assert forall|j: int| 0 <= j < grown.len() implies !is_space(
                        #[trigger] grown[j],
                    ) by {
                        if j < grown.len() - 1 {
                            assert(grown[j] == before.last()[j]);
                        }
                    }
                }
            }
        } else {
            assert forall|i: int| 0 <= i < now.len() implies (#[trigger] now[i]).len() > 0
                && forall|j: int| 0 <= j < now[i].len() ==> !is_space(#[trigger] now[i][j]) by {
                if i < now.len() - 1 {
                    assert(now[i] == before[i]);
                } else {
                    assert(now[i] == seq![s.last()]);
                }
            }
        }
    }
}

/// Split a line into its words.
pub fn split_words(line: &[u8]) -> (out: Vec<Vec<u8>>)
    ensures
        views(out@) == words(line@),
{
    let mut out: Vec<Vec<u8>> = Vec::new();
    let mut word: Vec<u8> = Vec::new();
    let mut i: usize = 0;
    while i < line.len()
        invariant
            i <= line.len(),
            word@.len() > 0 <==> (i > 0 && !is_space(line@[i - 1])),
            word@.len() == 0 ==> views(out@) == words(line@.subrange(0, i as int)),
            word@.len() > 0 ==> views(out@).push(word@) == words(line@.subrange(0, i as int)),
        decreases line.len() - i,
    {
        let b: u8 = line[i];
        let ghost before = line@.subrange(0, i as int);
        let ghost after = line@.subrange(0, i + 1);
        proof {
            assert(after.drop_last() =~= before);
            if i > 0 {
                assert(after[after.len() - 2] == line@[i - 1]);
            }
        }
        if is_space_byte(b) {
            if word.len() > 0 {
                out.push(word);
                word = Vec::new();
            }
        } else {
            let ghost old_word = word@;
            word.push(b);
            proof {
                if old_word.len() > 0 {
                    let ws = words(before);
                    assert(ws == views(out@).push(old_word));
                } else {
                    assert(word@ =~= seq![b]);
                }
            }
        }
        i = i + 1;
    }
    assert(line@.subrange(0, i as int) =~= line@);
    if word.len() > 0 {
        out.push(word);
    }
    out
}

/// The lower-case form of an ASCII letter; any other byte itself.
pub open spec fn lower(b: u8) -> u8 {
    if 65 <= b <= 90 {
        (b + 32) as u8
    } else {
        b
    }
}

/// Two byte sequences are equal up to the case of their ASCII letters.
pub open spec fn same_ignoring_case(a: Seq<u8>, b: Seq<u8>) -> bool {
    &&& a.len() == b.len()
    &&& forall|i: int| 0 <= i < a.len() ==> lower(#[trigger] a[i]) == lower(b[i])
}

/// The lower-case form of an ASCII letter; any other byte itself.
pub fn to_lower(b: u8) -> (r: u8)
    ensures
        r == lower(b),
{
    if 65 <= b && b <= 90 {
        b + 32
    } else {
        b
    }
}

/// Whether two byte strings are equal up to the case of their ASCII letters.
pub fn eq_ignore_case(a: &[u8], b: &[u8]) -> (r: bool)
    ensures
        r == same_ignoring_case(a@, b@),
{
    if a.len() != b.len() {
        return false;
    }
    let mut i: usize = 0;
    while i < a.len()
        invariant
            i <= a.len(),
            a.len() == b.len(),
            forall|k: int| 0 <= k < i ==> lower(#[trigger] a@[k]) == lower(b@[k]),
        decreases a.len() - i,
    {
        if to_lower(a[i]) != to_lower(b[i]) {
            return false;
        }
        i = i + 1;
    }
    true
}

/// The bytes of a text made of ASCII characters only.
pub open spec fn ascii(cs: Seq<char>) -> Seq<u8> {
    Seq::new(cs.len(), |i: int| cs[i] as u8)
}

/// Whether a word is the given keyword, up to the case of its letters.
pub(crate) fn is_keyword(word: &[u8], keyword: &str) -> (r: bool)
    requires
        is_ascii(keyword),
    ensures
        r == same_ignoring_case(word@, ascii(keyword@)),
{
    proof {
        is_ascii_spec_bytes(keyword);
    }
    eq_ignore_case(word, keyword.as_bytes())
}

/// Whether a line starts with the given bytes.
pub open spec fn has_prefix(s: Seq<u8>, prefix: Seq<u8>) -> bool {
    s.len() >= prefix.len() && s.subrange(0, prefix.len() as int) == prefix
}

/// Whether a byte string starts with the given bytes, case and all.
pub fn starts_with(s: &[u8], prefix: &[u8]) -> (r: bool)
    ensures
        r == has_prefix(s@, prefix@),
{
    if s.len() < prefix.len() {
        return false;
    }
    let mut i: usize = 0;
    while i < prefix.len()
        invariant
            i <= prefix.len() <= s.len(),
            forall|k: int| 0 <= k < i ==> s@[k] == prefix@[k],
        decreases prefix.len() - i,
    {
        if s[i] != prefix[i] {
            return false;
        }
        i = i + 1;
    }
    assert(s@.subrange(0, prefix@.len() as int) =~= prefix@);
    true
}

/// The number of white-space bytes at the start of a line.
pub open spec fn leading_spaces(s: Seq<u8>) -> nat
    decreases s.len(),
{
    if s.len() > 0 && is_space(s[0]) {
        1 + leading_spaces(s.drop_first())
    } else {
        0
    }
}

/// The number of white-space bytes at the end of a line.
pub open spec fn trailing_spaces(s: Seq<u8>) -> nat
    decreases s.len(),
{
    if s.len() > 0 && is_space(s.last()) {
        1 + trailing_spaces(s.drop_last())
    } else {
        0
    }
}

/// A line without the white space at its start and at its end.
pub open spec fn trimmed(s: Seq<u8>) -> Seq<u8> {
    let rest = s.skip(leading_spaces(s) as int);
    rest.take(rest.len() - trailing_spaces(rest))
}

/// Leading white space is a prefix of white-space bytes, as long as it can
/// be.
proof fn lemma_leading_spaces(s: Seq<u8>, n: int)
    requires
        0 <= n <= s.len(),
        forall|k: int| 0 <= k < n ==> is_space(#[trigger] s[k]),
        n == s.len() || !is_space(s[n]),
    ensures
        leading_spaces(s) == n,
    decreases s.len(),
{
    if n > 0 {
        let rest = s.drop_first();
        assert forall|k: int| 0 <= k < n - 1 implies is_space(#[trigger] rest[k]) by {
            assert(rest[k] == s[k + 1]);
        }
        lemma_leading_spaces(rest, n - 1);
    }
}

/// Trailing white space is a suffix of white-space bytes, as long as it
/// can be.
proof fn lemma_trailing_spaces(s: Seq<u8>, n: int)
    requires
        0 <= n <= s.len(),
        forall|k: int| s.len() - n <= k < s.len() ==> is_space(#[trigger] s[k]),
        n == s.len() || !is_space(s[s.len() - n - 1]),
    ensures
        trailing_spaces(s) == n,
    decreases s.len(),
{
    if n > 0 {
        let rest = s.drop_last();
        assert forall|k: int| rest.len() - (n - 1) <= k < rest.len() implies is_space(
            #[trigger] rest[k],
        ) by {
            assert(rest[k] == s[k]);
        }
        lemma_trailing_spaces(rest, n - 1);
    }
}

/// A line without the white space at its start and at its end.
pub fn trim(line: &[u8]) -> (out: Vec<u8>)
    ensures
        out@ == trimmed(line@),
{
    let mut start: usize = 0;
    while start < line.len() && is_space_byte(line[start])
        invariant
            start <= line.len(),
            forall|k: int| 0 <= k < start ==> is_space(#[trigger] line@[k]),
        decreases line.len() - start,
    {
        start = start + 1;
    }
    let mut end: usize = line.len();
    while end > start && is_space_byte(line[end - 1])
        invariant
            start <= end <= line.len(),
            forall|k: int| end <= k < line.len() ==> is_space(#[trigger] line@[k]),
        decreases end - start,
    {
        end = end - 1;
    }
    let mut out: Vec<u8> = Vec::new();
    let mut i: usize = start;
    while i < end
        invariant
            start <= i <= end <= line.len(),
            out@ == line@.subrange(start as int, i as int),
        decreases end - i,
    {
        out.push(line[i]);
        i = i + 1;
    }
    proof {
        lemma_leading_spaces(line@, start as int);
        let rest = line@.skip(start as int);
        let n = line.len() - end;
        assert forall|k: int| rest.len() - n <= k < rest.len() implies is_space(
            #[trigger] rest[k],
        ) by {
            assert(rest[k] == line@[k + start]);
        }
        if n < rest.len() {
            assert(rest[rest.len() - n - 1] == line@[end - 1]);
        }
        lemma_trailing_spaces(rest, n);
    }
    out
}

} // verus!
