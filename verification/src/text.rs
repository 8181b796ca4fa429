//! Line and token utilities: trimming, whitespace tokenization, substring
//! search, and line matching over captured tool output.

use vstd::prelude::*;

use crate::is_space;

verus! {

/// The sequence with its leading whitespace removed.
pub open spec fn drop_leading(s: Seq<char>) -> Seq<char>
    decreases s.len(),
{
    if s.len() == 0 {
        s
    } else if is_space(s[0]) {
        drop_leading(s.subrange(1, s.len() as int))
    } else {
        s
    }
}

/// The sequence with its trailing whitespace removed.
pub open spec fn drop_trailing(s: Seq<char>) -> Seq<char>
    decreases s.len(),
{
    if s.len() == 0 {
        s
    } else if is_space(s[s.len() - 1]) {
        drop_trailing(s.subrange(0, s.len() - 1))
    } else {
        s
    }
}

/// The sequence with whitespace removed from both ends.
pub open spec fn trim(s: Seq<char>) -> Seq<char> {
    drop_trailing(drop_leading(s))
}

/// Whether `c` is one of the whitespace characters recognized between tokens.
pub fn is_space_char(c: char) -> (r: bool)
    ensures
        r == is_space(c),
{
    c == ' ' || c == '\t' || c == '\n' || c == '\r'
}

/// Remove leading whitespace from a string slice.
pub fn trim_start(s: &str) -> (r: &str)
    ensures
        r@ == drop_leading(s@),
    decreases s@.len(),
{
    let n = s.unicode_len();
    if n == 0 {
        s
    } else if is_space_char(s.get_char(0)) {
        trim_start(s.substring_char(1, n))
    } else {
        s
    }
}

/// Remove trailing whitespace from a string slice.
pub fn trim_end(s: &str) -> (r: &str)
    ensures
        r@ == drop_trailing(s@),
    decreases s@.len(),
{
    let n = s.unicode_len();
    if n == 0 {
        s
    } else if is_space_char(s.get_char(n - 1)) {
        trim_end(s.substring_char(0, n - 1))
    } else {
        s
    }
}

/// Remove whitespace from both ends of a string slice.
pub fn trim_str(s: &str) -> (r: &str)
    ensures
        r@ == trim(s@),
{
    trim_end(trim_start(s))
}

/// Length of the leading run of non-whitespace characters.
pub open spec fn token_end(s: Seq<char>) -> nat
    decreases s.len(),
{
    if s.len() == 0 || is_space(s[0]) {
        0
    } else {
        1 + token_end(s.subrange(1, s.len() as int))
    }
}

pub proof fn lemma_token_end_le(s: Seq<char>)
    ensures
        token_end(s) <= s.len(),
    decreases s.len(),
{
    if s.len() == 0 || is_space(s[0]) {
    } else {
        lemma_token_end_le(s.subrange(1, s.len() as int));
    }
}

/// The whitespace-separated tokens of a line, in order, with empty runs
/// skipped; leading and trailing whitespace never contributes a token.
pub open spec fn tokens(s: Seq<char>) -> Seq<Seq<char>>
    decreases s.len(),
    via tokens_decreases
{
    if s.len() == 0 {
        Seq::empty()
    } else if is_space(s[0]) {
        tokens(s.subrange(1, s.len() as int))
    } else {
        seq![s.subrange(0, token_end(s) as int)] + tokens(
            s.subrange(token_end(s) as int, s.len() as int),
        )
    }
}

#[via_fn]
proof fn tokens_decreases(s: Seq<char>) {
    lemma_token_end_le(s);
}

/// Length of the leading run of non-whitespace characters, computed on a
/// string slice.
pub fn token_len(s: &str) -> (k: usize)
    ensures
        k == token_end(s@),
    decreases s@.len(),
{
    let n = s.unicode_len();
    if n == 0 {
        0
    } else if is_space_char(s.get_char(0)) {
        0
    } else {
        let rest = s.substring_char(1, n);
        let k2 = token_len(rest);
        proof {
            lemma_token_end_le(rest@);
        }
        1 + k2
    }
}

/// The token at zero-based index `nth` of a line, or `None` when the line
/// holds fewer than `nth + 1` whitespace-separated tokens.
pub fn line_nth(line: &str, nth: usize) -> (r: Option<String>)
    ensures
        (match r {
            Some(t) => nth < tokens(line@).len() && t@ == tokens(line@)[nth as int],
            None => nth >= tokens(line@).len(),
        }),
    decreases line@.len(),
{
    let n = line.unicode_len();
    if n == 0 {
        None
    } else if is_space_char(line.get_char(0)) {
        line_nth(line.substring_char(1, n), nth)
    } else {
        let k = token_len(line);
        proof {
            lemma_token_end_le(line@);
        }
        if nth == 0 {
            Some(line.substring_char(0, k).to_owned())
        } else {
            line_nth(line.substring_char(k, n), nth - 1)
        }
    }
}

/// Whether `needle` occurs contiguously inside `hay`.
pub open spec fn is_substring(hay: Seq<char>, needle: Seq<char>) -> bool {
    exists|i: int|
        0 <= i && i + needle.len() <= hay.len() && #[trigger] hay.subrange(
            i,
            i + needle.len() as int,
        ) == needle
}

/// Whether `needle` occurs in `hay` starting exactly at position `i`.
fn match_at(hay: &str, i: usize, needle: &str) -> (r: bool)
    requires
        i + needle@.len() <= hay@.len(),
    ensures
        r == (hay@.subrange(i as int, i + needle@.len() as int) == needle@),
{
    let m = needle.unicode_len();
    let hn = hay.unicode_len();
    let mut j: usize = 0;
    while j < m
        invariant
            j <= m,
            m == needle@.len(),
            hn == hay@.len(),
            i + m <= hn,
            forall|q: int| 0 <= q < j ==> hay@[i + q] == needle@[q],
        decreases m - j,
    {
        if hay.get_char(i + j) != needle.get_char(j) {
            proof {
                assert(hay@.subrange(i as int, i + m as int)[j as int] == hay@[i + j]);
            }
            return false;
        }
        j += 1;
    }
    proof {
        assert(hay@.subrange(i as int, i + m as int) =~= needle@);
    }
    true
}

/// Whether `needle` occurs contiguously inside `hay`, computed on string
/// slices.
pub fn contains_str(hay: &str, needle: &str) -> (r: bool)
    ensures
        r == is_substring(hay@, needle@),
{
    let n = hay.unicode_len();
    let m = needle.unicode_len();
    if m > n {
        return false;
    }
    if m == 0 {
        proof {
            assert(hay@.subrange(0, 0 + needle@.len() as int) =~= needle@);
        }
        return true;
    }
    let mut i: usize = 0;
    while i <= n - m
        invariant
            0 < m <= n,
            n == hay@.len(),
            m == needle@.len(),
            i <= n - m + 1,
            forall|q: int|
                0 <= q < i ==> #[trigger] hay@.subrange(q, q + m as int) != needle@,
        decreases n - m + 1 - i,
    {
        if match_at(hay, i, needle) {
            return true;
        }
        i += 1;
    }
    false
}

/// Index of the first line at or after `from` that contains `needle`, or
/// `None` when no such line exists.
pub open spec fn find_line(lines: Seq<Seq<char>>, from: int, needle: Seq<char>) -> Option<int>
    decreases lines.len() - from,
{
    if from < 0 || from >= lines.len() {
        None
    } else if is_substring(lines[from], needle) {
        Some(from)
    } else {
        find_line(lines, from + 1, needle)
    }
}

/// Scan `lines` from index `from` for the first line containing `needle`.
/// Returns its index; the caller resumes a sequential scan at the next index.
pub fn get_line(lines: &Vec<String>, from: usize, needle: &str) -> (r: Option<usize>)
    ensures
        (match r {
            Some(i) => from <= i < lines.len() && find_line(lines.deep_view(), from as int, needle@)
                == Some(i as int),
            None => find_line(lines.deep_view(), from as int, needle@) is None,
        }),
{
    let n = lines.len();
    proof {
        assert(lines.deep_view().len() == lines@.len());
    }
    if from >= n {
        return None;
    }
    let mut i: usize = from;
    while i < n
        invariant
            from <= i <= n,
            n == lines@.len(),
            find_line(lines.deep_view(), from as int, needle@) == find_line(
                lines.deep_view(),
                i as int,
                needle@,
            ),
        decreases n - i,
    {
        proof {
            assert(lines.deep_view()[i as int] == lines@[i as int]@);
        }
        if contains_str(lines[i].as_str(), needle) {
            return Some(i);
        }
        i += 1;
    }
    None
}

/// The token at index `nth` of the first line at or after `from` containing
/// `needle`, paired with the index at which a sequential scan resumes.
pub open spec fn nth_from_line(
    lines: Seq<Seq<char>>,
    from: int,
    needle: Seq<char>,
    nth: int,
) -> Option<(int, Seq<char>)> {
    match find_line(lines, from, needle) {
        None => None,
        Some(i) => if 0 <= nth < tokens(lines[i]).len() {
            Some((i + 1, tokens(lines[i])[nth]))
        } else {
            None
        },
    }
}

/// Find the first line at or after `from` containing `needle` and return its
/// token at index `nth` together with the next scan position. `None` when no
/// line matches or the matched line holds too few tokens.
pub fn get_nth_from_line(lines: &Vec<String>, from: usize, needle: &str, nth: usize) -> (r: Option<
    (usize, String),
>)
    ensures
        (match r {
            Some(p) => nth_from_line(lines.deep_view(), from as int, needle@, nth as int) == Some(
                (p.0 as int, p.1@),
            ) && p.0 <= lines.len(),
            None => nth_from_line(lines.deep_view(), from as int, needle@, nth as int) is None,
        }),
{
    match get_line(lines, from, needle) {
        None => None,
        Some(i) => {
            proof {
                assert(lines.deep_view()[i as int] == lines@[i as int]@);
            }
            match line_nth(lines[i].as_str(), nth) {
                None => None,
                Some(t) => Some((i + 1, t)),
            }
        },
    }
}

/// Length of the leading run of characters other than the delimiter `d`.
pub open spec fn delim_end(s: Seq<char>, d: char) -> nat
    decreases s.len(),
{
    if s.len() == 0 || s[0] == d {
        0
    } else {
        1 + delim_end(s.subrange(1, s.len() as int), d)
    }
}

pub proof fn lemma_delim_end_le(s: Seq<char>, d: char)
    ensures
        delim_end(s, d) <= s.len(),
    decreases s.len(),
{
    if s.len() == 0 || s[0] == d {
    } else {
        lemma_delim_end_le(s.subrange(1, s.len() as int), d);
    }
}

/// The segments of `s` split on delimiter `d`, empty segments kept; the
/// result always holds at least one segment.
pub open spec fn split_on(s: Seq<char>, d: char) -> Seq<Seq<char>>
    decreases s.len(),
    via split_on_decreases
{
    let k = delim_end(s, d) as int;
    if k == s.len() {
        seq![s]
    } else {
        seq![s.subrange(0, k)] + split_on(s.subrange(k + 1, s.len() as int), d)
    }
}

#[via_fn]
proof fn split_on_decreases(s: Seq<char>, d: char) {
    lemma_delim_end_le(s, d);
}

pub proof fn lemma_split_on_nonempty(s: Seq<char>, d: char)
    ensures
        split_on(s, d).len() >= 1,
{
    lemma_delim_end_le(s, d);
}

/// Length of the leading run of characters other than `d`, computed on a
/// string slice.
pub fn delim_len(s: &str, d: char) -> (k: usize)
    ensures
        k == delim_end(s@, d),
    decreases s@.len(),
{
    let n = s.unicode_len();
    if n == 0 {
        0
    } else if s.get_char(0) == d {
        0
    } else {
        let rest = s.substring_char(1, n);
        let k2 = delim_len(rest, d);
        proof {
            lemma_delim_end_le(rest@, d);
        }
        1 + k2
    }
}

/// Append the segments of `s` split on `d` to `out`, in order.
fn split_on_into(s: &str, d: char, out: &mut Vec<String>)
    ensures
        final(out)@.len() == old(out)@.len() + split_on(s@, d).len(),
        forall|j: int| 0 <= j < old(out)@.len() ==> final(out)@[j] == old(out)@[j],
        forall|j: int|
            0 <= j < split_on(s@, d).len() ==> #[trigger] final(out)@[old(out)@.len() + j]@
                == split_on(s@, d)[j],
    decreases s@.len(),
{
    let n = s.unicode_len();
    let k = delim_len(s, d);
    proof {
        lemma_delim_end_le(s@, d);
    }
    if k == n {
        out.push(s.to_owned());
    } else {
        out.push(s.substring_char(0, k).to_owned());
        let rest = s.substring_char(k + 1, n);
        let ghost mid = out@;
        split_on_into(rest, d, out);
        proof {
            let full = split_on(s@, d);
            let tail = split_on(rest@, d);
            assert(full == seq![s@.subrange(0, k as int)] + tail);
            assert forall|j: int| 0 <= j < full.len() implies out@[old(out)@.len() + j]@
                == full[j] by {
                if j == 0 {
                    assert(out@[old(out)@.len() as int] == mid[old(out)@.len() as int]);
                } else {
                    assert(out@[mid.len() + (j - 1)]@ == tail[j - 1]);
                }
            }
        }
    }
}

/// The segments of `s` split on delimiter `d`, as owned strings.
pub fn split_str(s: &str, d: char) -> (r: Vec<String>)
    ensures
        r@.len() == split_on(s@, d).len(),
        forall|j: int| 0 <= j < r@.len() ==> #[trigger] r@[j]@ == split_on(s@, d)[j],
        r.deep_view() == split_on(s@, d),
{
    let mut out: Vec<String> = Vec::new();
    split_on_into(s, d, &mut out);
    proof {
        assert forall|j: int| 0 <= j < out@.len() implies #[trigger] out@[j]@ == split_on(s@, d)[j] by {
            assert(out@[0 + j]@ == split_on(s@, d)[j]);
        }
        assert(out.deep_view() =~= split_on(s@, d));
    }
    out
}

/// Equality of two string slices, character by character.
pub fn str_eq(a: &str, b: &str) -> (r: bool)
    ensures
        r == (a@ == b@),
{
    let n = a.unicode_len();
    let m = b.unicode_len();
    if n != m {
        return false;
    }
    let mut i: usize = 0;
    while i < n
        invariant
            i <= n,
            n == a@.len(),
            n == b@.len(),
            forall|j: int| 0 <= j < i ==> a@[j] == b@[j],
        decreases n - i,
    {
        if a.get_char(i) != b.get_char(i) {
            return false;
        }
        i += 1;
    }
    proof {
        assert(a@ =~= b@);
    }
    true
}

} // verus!
