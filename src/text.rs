//! Character-level helpers: splitting a document into lines and cleaning tags.
use vstd::prelude::*;
use vstd::string::*;

verus! {

/// The first index at or after `from` where `s` holds `c`, or `s.len()` where there is none.
pub open spec fn first_index(s: Seq<char>, c: char, from: int) -> int
    decreases s.len() - from,
{
    if from >= s.len() {
        s.len() as int
    } else if s[from] == c {
        from
    } else {
        first_index(s, c, from + 1)
    }
}

/// `s` without one trailing carriage return.
pub open spec fn strip_cr(s: Seq<char>) -> Seq<char> {
    if s.len() > 0 && s.last() == '\r' {
        s.drop_last()
    } else {
        s
    }
}

/// The lines of `s` that start at or after `start`. A line ends at `\n` or `\r\n`; the
/// terminator is not part of the line, and the final line needs none.
pub open spec fn lines_from(s: Seq<char>, start: int) -> Seq<Seq<char>>
    decreases s.len() - start,
    via lines_from_decreases
{
    if start < 0 || start >= s.len() {
        seq![]
    } else {
        let k = first_index(s, '\n', start);
        if k >= s.len() {
            seq![s.subrange(start, s.len() as int)]
        } else {
            seq![strip_cr(s.subrange(start, k))] + lines_from(s, k + 1)
        }
    }
}

#[via_fn]
proof fn lines_from_decreases(s: Seq<char>, start: int) {
    if 0 <= start < s.len() {
        lemma_first_index_bounds(s, '\n', start);
    }
}

/// The lines of a document, in order: empty for an empty document, and a final line
/// terminator adds no empty line.
pub open spec fn doc_lines(s: Seq<char>) -> Seq<Seq<char>> {
    lines_from(s, 0)
}

/// The views of a sequence of string slices.
pub open spec fn str_views(v: Seq<&str>) -> Seq<Seq<char>> {
    v.map_values(|l: &str| l@)
}

pub proof fn lemma_first_index_bounds(s: Seq<char>, c: char, from: int)
    requires
        0 <= from <= s.len(),
    ensures
        from <= first_index(s, c, from) <= s.len(),
        first_index(s, c, from) < s.len() ==> s[first_index(s, c, from)] == c,
        forall|k: int| from <= k < first_index(s, c, from) ==> s[k] != c,
    decreases s.len() - from,
{
    if from < s.len() && s[from] != c {
        lemma_first_index_bounds(s, c, from + 1);
    }
}

/// Skipping positions that do not hold `c` does not change where `c` is found first.
pub proof fn lemma_first_index_skip(s: Seq<char>, c: char, from: int, i: int)
    requires
        0 <= from <= i <= s.len(),
        forall|k: int| from <= k < i ==> s[k] != c,
    ensures
        first_index(s, c, from) == first_index(s, c, i),
    decreases i - from,
{
    if from < i {
        lemma_first_index_skip(s, c, from + 1, i);
    }
}


/// The characters of `s`, in order.
pub fn to_chars(s: &str) -> (r: Vec<char>)
    ensures
        r@ == s@,
{
    let mut r: Vec<char> = Vec::new();
    for c in it: s.chars()
        invariant
            r@ == it.seq().take(it.index() as int),
            it.seq() == s@,
    {
        r.push(c);
    }
    r
}

/// Splits a document into its lines, as `doc_lines` describes.
pub fn split_lines(s: &str) -> (r: Vec<&str>)
    ensures
        str_views(r@) == doc_lines(s@),
{
    let chars = to_chars(s);
    let mut r: Vec<&str> = Vec::new();
    let mut start: usize = 0;
    let mut i: usize = 0;
    while i < chars.len()
        invariant
            chars@ == s@,
            start <= i <= chars.len(),
            forall|k: int| start <= k < i ==> chars@[k] != '\n',
            str_views(r@) + lines_from(s@, start as int) == doc_lines(s@),
        decreases chars.len() - i,
    {
        if chars[i] == '\n' {
            proof {
                lemma_first_index_skip(s@, '\n', start as int, i as int);
            }
            let end = if i > start && chars[i - 1] == '\r' {
                i - 1
            } else {
                i
            };
            let line = s.substring_char(start, end);
            proof {
                assert(strip_cr(s@.subrange(start as int, i as int)) =~= line@);
                assert(str_views(r@.push(line)) =~= str_views(r@).push(line@));
                assert(str_views(r@) + lines_from(s@, start as int) =~= str_views(r@.push(line))
                    + lines_from(s@, i + 1));
            }
            r.push(line);
            start = i + 1;
        }
        i += 1;
    }
    if start < chars.len() {
        proof {
            lemma_first_index_skip(s@, '\n', start as int, i as int);
        }
        let line = s.substring_char(start, chars.len());
        proof {
            assert(str_views(r@.push(line)) =~= str_views(r@).push(line@));
            assert(str_views(r@) + lines_from(s@, start as int) =~= str_views(r@.push(line)));
        }
        r.push(line);
    } else {
        proof {
            assert(str_views(r@) + lines_from(s@, start as int) =~= str_views(r@));
        }
    }
    r
}

} // verus!
