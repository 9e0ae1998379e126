//! Reading the frame size out of the decoder's stream description.
//!
//! The description is text in lines, given as its characters.  The first line that mentions `Video:`
//! and holds an `x`, and within it the first whitespace-separated word of
//! the form `<width>x<height>[,...]` whose two numbers are decimal `usize`
//! values, gives the size.

use vstd::prelude::*;
use vstd::slice::slice_subrange;

verus! {

/// Characters that separate words: those with the Unicode `White_Space`
/// property, as `char::is_whitespace` tests.
pub open spec fn is_space(c: char) -> bool {
    let u = c as u32;
    (9 <= u <= 13) || u == 32 || u == 0x85 || u == 0xa0 || u == 0x1680 || (0x2000 <= u <= 0x200a)
        || u == 0x2028 || u == 0x2029 || u == 0x202f || u == 0x205f || u == 0x3000
}

/// Ranges `(start, end)` of the lines of `s`: the pieces between newline
/// characters, the last one possibly empty.
pub open spec fn line_ranges(s: Seq<char>) -> Seq<(usize, usize)>
    decreases s.len(),
{
    if s.len() == 0 {
        seq![(0usize, 0usize)]
    } else {
        let prev = line_ranges(s.drop_last());
        let n = s.len() as usize;
        if s.last() == '\n' {
            prev.push((n, n))
        } else {
            prev.update(prev.len() - 1, (prev.last().0, n))
        }
    }
}

/// Ranges `(start, end)` of the words of `s`: maximal runs of non-space
/// characters.
pub open spec fn word_ranges(s: Seq<char>) -> Seq<(usize, usize)>
    decreases s.len(),
{
    if s.len() == 0 {
        seq![]
    } else {
        let prev = word_ranges(s.drop_last());
        let n = s.len() as usize;
        if is_space(s.last()) {
            prev
        } else if s.len() >= 2 && !is_space(s[s.len() - 2]) {
            prev.update(prev.len() - 1, (prev.last().0, n))
        } else {
            prev.push(((s.len() - 1) as usize, n))
        }
    }
}

/// Position of the first `c` in `s` at or after `i`, or `s.len()`.
pub open spec fn find_from(s: Seq<char>, c: char, i: int) -> int
    decreases s.len() - i,
{
    if i >= s.len() {
        s.len() as int
    } else if s[i] == c {
        i
    } else {
        find_from(s, c, i + 1)
    }
}

/// Whether `pat` occurs in `s` at position `i`.
pub open spec fn occurs_at(s: Seq<char>, pat: Seq<char>, i: int) -> bool {
    0 <= i && i + pat.len() <= s.len() && s.subrange(i, i + pat.len()) == pat
}

/// Whether `pat` occurs anywhere in `s`.
pub open spec fn contains_pattern(s: Seq<char>, pat: Seq<char>) -> bool {
    exists|i: int| occurs_at(s, pat, i)
}

/// Whether every character of `d` is an ASCII digit.
pub open spec fn all_digits(d: Seq<char>) -> bool {
    forall|i: int| 0 <= i < d.len() ==> 48 <= #[trigger] (d[i] as u32) <= 57
}

/// Decimal value of the digits `d`.
pub open spec fn decimal_value(d: Seq<char>) -> nat
    decreases d.len(),
{
    if d.len() == 0 {
        0
    } else {
        decimal_value(d.drop_last()) * 10 + (d.last() as u32 - 48) as nat
    }
}

/// A decimal `usize` as `str::parse` reads it: an optional leading `+`, at
/// least one digit, only digits, and a value that fits.
pub open spec fn parse_decimal(s: Seq<char>) -> Option<usize> {
    let d = if s.len() >= 1 && s[0] == '+' {
        s.drop_first()
    } else {
        s
    };
    if d.len() == 0 || !all_digits(d) || decimal_value(d) > usize::MAX {
        None
    } else {
        Some(decimal_value(d) as usize)
    }
}

/// Size read from one word: the text before its first `x` is the width, the
/// text after it up to the first `,` is the height.
pub open spec fn word_dimensions(w: Seq<char>) -> Option<(usize, usize)> {
    let p = find_from(w, 'x', 0);
    if p >= w.len() {
        None
    } else {
        let rest = w.subrange(p + 1, w.len() as int);
        let h = rest.take(find_from(rest, ',', 0));
        match (parse_decimal(w.take(p)), parse_decimal(h)) {
            (Some(width), Some(height)) => Some((width, height)),
            _ => None,
        }
    }
}

/// The first size found among the words `k..` of line `line`.
pub open spec fn first_in_words(line: Seq<char>, words: Seq<(usize, usize)>, k: int) -> Option<
    (usize, usize),
>
    decreases words.len() - k,
{
    if k >= words.len() || k < 0 {
        None
    } else {
        match word_dimensions(line.subrange(words[k].0 as int, words[k].1 as int)) {
            Some(d) => Some(d),
            None => first_in_words(line, words, k + 1),
        }
    }
}

/// Whether a line describes a video stream.
pub open spec fn is_video_line(line: Seq<char>) -> bool {
    contains_pattern(line, seq!['V', 'i', 'd', 'e', 'o', ':']) && contains_pattern(line, seq!['x'])
}

/// The size given by a line, if it is a video line.
pub open spec fn line_dimensions(line: Seq<char>) -> Option<(usize, usize)> {
    if is_video_line(line) {
        first_in_words(line, word_ranges(line), 0)
    } else {
        None
    }
}

/// The first size found among the lines `k..` of `s`.
pub open spec fn first_in_lines(s: Seq<char>, lines: Seq<(usize, usize)>, k: int) -> Option<
    (usize, usize),
>
    decreases lines.len() - k,
{
    if k >= lines.len() || k < 0 {
        None
    } else {
        match line_dimensions(s.subrange(lines[k].0 as int, lines[k].1 as int)) {
            Some(d) => Some(d),
            None => first_in_lines(s, lines, k + 1),
        }
    }
}

/// The frame size that a stream description gives.
pub open spec fn video_dimensions(s: Seq<char>) -> Option<(usize, usize)> {
    first_in_lines(s, line_ranges(s), 0)
}


/// Line ranges are ordered, non-empty as a list, and within `s`.
proof fn lemma_line_ranges(s: Seq<char>)
    requires
        s.len() <= usize::MAX,
    ensures
        line_ranges(s).len() >= 1,
        line_ranges(s).last().1 == s.len(),
        forall|k: int|
            0 <= k < line_ranges(s).len() ==> #[trigger] line_ranges(s)[k].0 <= line_ranges(s)[k].1
                <= s.len(),
    decreases s.len(),
{
    if s.len() > 0 {
        lemma_line_ranges(s.drop_last());
    }
}

/// Word ranges lie within `s`, and the last one ends at the last non-space
/// character run.
proof fn lemma_word_ranges(s: Seq<char>)
    requires
        s.len() <= usize::MAX,
    ensures
        forall|k: int|
            0 <= k < word_ranges(s).len() ==> #[trigger] word_ranges(s)[k].0 <= word_ranges(s)[k].1
                <= s.len(),
        s.len() >= 1 && !is_space(s.last()) ==> word_ranges(s).len() >= 1 && word_ranges(s).last().1
            == s.len(),
    decreases s.len(),
{
    if s.len() > 0 {
        let prev = word_ranges(s.drop_last());
        lemma_word_ranges(s.drop_last());
        if s.len() >= 2 && !is_space(s[s.len() - 2]) {
            assert(s.drop_last().last() == s[s.len() - 2]);
            assert(prev[prev.len() - 1].0 <= prev[prev.len() - 1].1);
        }
    }
}

/// Ranges of the lines of `s`.
fn line_ranges_of(s: &[char]) -> (r: Vec<(usize, usize)>)
    ensures
        r@ == line_ranges(s@),
{
    let n = s.len();
    let mut r: Vec<(usize, usize)> = Vec::new();
    r.push((0, 0));
    assert(s@.take(0) == Seq::<char>::empty());
    let mut i: usize = 0;
    while i < n
        invariant
            i <= n,
            n == s@.len(),
            r@ == line_ranges(s@.take(i as int)),
        decreases n - i,
    {
        proof {
            lemma_line_ranges(s@.take(i as int));
            assert(s@.take(i + 1).drop_last() == s@.take(i as int));
        }
        if s[i] == '\n' {
            r.push((i + 1, i + 1));
        } else {
            let last = r.len() - 1;
            let start = r[last].0;
            r.set(last, (start, i + 1));
        }
        i = i + 1;
    }
    assert(s@.take(n as int) == s@);
    r
}

/// Whether `c` separates words.
fn is_space_char(c: char) -> (r: bool)
    ensures
        r == is_space(c),
{
    let u = c as u32;
    (9 <= u && u <= 13) || u == 32 || u == 0x85 || u == 0xa0 || u == 0x1680 || (0x2000 <= u && u
        <= 0x200a) || u == 0x2028 || u == 0x2029 || u == 0x202f || u == 0x205f || u == 0x3000
}

/// Ranges of the words of `s`.
fn word_ranges_of(s: &[char]) -> (r: Vec<(usize, usize)>)
    ensures
        r@ == word_ranges(s@),
{
    let n = s.len();
    let mut r: Vec<(usize, usize)> = Vec::new();
    assert(s@.take(0) == Seq::<char>::empty());
    let mut i: usize = 0;
    while i < n
        invariant
            i <= n,
            n == s@.len(),
            r@ == word_ranges(s@.take(i as int)),
        decreases n - i,
    {
        proof {
            lemma_word_ranges(s@.take(i as int));
            assert(s@.take(i + 1).drop_last() == s@.take(i as int));
        }
        if is_space_char(s[i]) {
        } else if i >= 1 && !is_space_char(s[i - 1]) {
            assert(s@.take(i as int).last() == s@[i - 1]);
            let last = r.len() - 1;
            let start = r[last].0;
            r.set(last, (start, i + 1));
        } else {
            r.push((i, i + 1));
        }
        i = i + 1;
    }
    assert(s@.take(n as int) == s@);
    r
}

/// Position of the first `c` in `s`, or its length.
fn find_char(s: &[char], c: char) -> (r: usize)
    ensures
        r == find_from(s@, c, 0),
        r <= s@.len(),
{
    let mut i: usize = 0;
    while i < s.len() && s[i] != c
        invariant
            i <= s@.len(),
            find_from(s@, c, 0) == find_from(s@, c, i as int),
        decreases s@.len() - i,
    {
        i = i + 1;
    }
    i
}

/// Whether `pat` occurs in `s`.
fn contains_chars(s: &[char], pat: &[char]) -> (r: bool)
    ensures
        r == contains_pattern(s@, pat@),
{
    let n = s.len();
    let m = pat.len();
    if m > n {
        assert forall|i: int| !occurs_at(s@, pat@, i) by {}
        return false;
    }
    let mut i: usize = 0;
    while i <= n - m
        invariant
            m <= n,
            n == s@.len(),
            m == pat@.len(),
            forall|j: int| 0 <= j < i ==> !occurs_at(s@, pat@, j),
        decreases n - m + 1 - i,
    {
        let mut k: usize = 0;
        while k < m && s[i + k] == pat[k]
            invariant
                k <= m,
                i + m <= n,
                n == s@.len(),
                m == pat@.len(),
                forall|t: int| 0 <= t < k ==> s@[i + t] == pat@[t],
            decreases m - k,
        {
            k = k + 1;
        }
        if k == m {
            assert(s@.subrange(i as int, i + m) == pat@);
            assert(occurs_at(s@, pat@, i as int));
            return true;
        }
        assert(!occurs_at(s@, pat@, i as int)) by {
            if occurs_at(s@, pat@, i as int) {
                assert(s@.subrange(i as int, i + m)[k as int] == s@[i + k]);
            }
        }
        i = i + 1;
    }
    assert forall|j: int| !occurs_at(s@, pat@, j) by {}
    false
}

/// Digits of a prefix never add up to more than the whole.
proof fn lemma_decimal_prefix(d: Seq<char>, i: int)
    requires
        0 <= i <= d.len(),
        all_digits(d),
    ensures
        decimal_value(d.take(i)) <= decimal_value(d),
    decreases d.len() - i,
{
    if i < d.len() {
        lemma_decimal_prefix(d, i + 1);
        assert(d.take(i + 1).drop_last() == d.take(i));
    } else {
        assert(d.take(i) == d);
    }
}

/// A decimal `usize`, read as `str::parse` reads it.
fn parse_decimal_chars(s: &[char]) -> (r: Option<usize>)
    ensures
        r == parse_decimal(s@),
{
    let n = s.len();
    let first: usize = if n >= 1 && s[0] == '+' {
        1
    } else {
        0
    };
    let ghost d = if s@.len() >= 1 && s@[0] == '+' {
        s@.drop_first()
    } else {
        s@
    };
    assert(d == s@.subrange(first as int, n as int));
    if first == n {
        assert(d.len() == 0);
        return None;
    }
    let mut value: usize = 0;
    let mut i: usize = first;
    while i < n
        invariant
            first <= i <= n,
            n == s@.len(),
            d == s@.subrange(first as int, n as int),
            d == (if s@.len() >= 1 && s@[0] == '+' {
                s@.drop_first()
            } else {
                s@
            }),
            all_digits(d.take(i - first)),
            value == decimal_value(d.take(i - first)),
        decreases n - i,
    {
        let c = s[i] as u32;
        assert(d[i - first] as u32 == c);
        if c < 48 || c > 57 {
            assert(!all_digits(d));
            return None;
        }
        let ghost k = i - first;
        assert(d.take(k + 1).drop_last() == d.take(k));
        assert(all_digits(d.take(k + 1)));
        assert(decimal_value(d.take(k + 1)) == value * 10 + (c - 48));
        let next = match value.checked_mul(10) {
            Some(v) => match v.checked_add((c - 48) as usize) {
                Some(w) => w,
                None => {
                    proof {
                        if all_digits(d) {
                            lemma_decimal_prefix(d, k + 1);
                        }
                    }
                    return None;
                },
            },
            None => {
                proof {
                    if all_digits(d) {
                        lemma_decimal_prefix(d, k + 1);
                    }
                }
                return None;
            },
        };
        value = next;
        i = i + 1;
    }
    assert(d.take(n - first) == d);
    Some(value)
}

/// The size read from one word.
fn word_dims(w: &[char]) -> (r: Option<(usize, usize)>)
    ensures
        r == word_dimensions(w@),
{
    let p = find_char(w, 'x');
    if p >= w.len() {
        return None;
    }
    let rest = slice_subrange(w, p + 1, w.len());
    let q = find_char(rest, ',');
    let width = parse_decimal_chars(slice_subrange(w, 0, p));
    let height = parse_decimal_chars(slice_subrange(rest, 0, q));
    assert(w@.subrange(0, p as int) == w@.take(p as int));
    assert(rest@.subrange(0, q as int) == rest@.take(q as int));
    match (width, height) {
        (Some(a), Some(b)) => Some((a, b)),
        _ => None,
    }
}

/// The frame size given in a decoder's stream description: the first
/// `<width>x<height>` word on the first video line that has one.
pub fn parse_video_dimensions(probe_info: &[char]) -> (r: Option<(usize, usize)>)
    ensures
        r == video_dimensions(probe_info@),
{
    let total = probe_info.len();
    let lines = line_ranges_of(probe_info);
    proof {
        lemma_line_ranges(probe_info@);
    }
    let marker: [char; 6] = ['V', 'i', 'd', 'e', 'o', ':'];
    let ex: [char; 1] = ['x'];
    assert(marker@ == seq!['V', 'i', 'd', 'e', 'o', ':']);
    assert(ex@ == seq!['x']);
    let mut k: usize = 0;
    while k < lines.len()
        invariant
            k <= lines@.len(),
            lines@ == line_ranges(probe_info@),
            forall|j: int|
                0 <= j < lines@.len() ==> #[trigger] lines@[j].0 <= lines@[j].1 <= probe_info@.len(),
            marker@ == seq!['V', 'i', 'd', 'e', 'o', ':'],
            ex@ == seq!['x'],
            video_dimensions(probe_info@) == first_in_lines(probe_info@, lines@, k as int),
        decreases lines@.len() - k,
    {
        let (start, end) = lines[k];
        let line = slice_subrange(probe_info, start, end);
        if contains_chars(line, marker.as_slice()) && contains_chars(line, ex.as_slice()) {
            let words = word_ranges_of(line);
            proof {
                lemma_word_ranges(line@);
            }
            let mut t: usize = 0;
            while t < words.len()
                invariant
                    t <= words@.len(),
                    words@ == word_ranges(line@),
                    forall|j: int|
                        0 <= j < words@.len() ==> #[trigger] words@[j].0 <= words@[j].1 <= line@.len(),
                    line_dimensions(line@) == first_in_words(line@, words@, t as int),
                    k < lines@.len(),
                    line@ == probe_info@.subrange(lines@[k as int].0 as int, lines@[k as int].1 as int),
                    is_video_line(line@),
                    lines@ == line_ranges(probe_info@),
                    video_dimensions(probe_info@) == first_in_lines(probe_info@, lines@, k as int),
                decreases words@.len() - t,
            {
                let (ws, we) = words[t];
                let found = word_dims(slice_subrange(line, ws, we));
                if found.is_some() {
                    return found;
                }
                t = t + 1;
            }
        }
        k = k + 1;
    }
    None
}

} // verus!
