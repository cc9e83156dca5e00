//! Character and string helpers: whitespace, word and line counts,
//! truncation for labels.

use vstd::prelude::*;

verus! {

/// The Unicode `White_Space` property, which `char::is_whitespace`,
/// `str::trim` and `str::split_whitespace` go by.
pub open spec fn is_space(c: char) -> bool {
    let u = c as u32;
    ||| 0x09 <= u <= 0x0d
    ||| u == 0x20
    ||| u == 0x85
    ||| u == 0xa0
    ||| u == 0x1680
    ||| 0x2000 <= u <= 0x200a
    ||| u == 0x2028
    ||| u == 0x2029
    ||| u == 0x202f
    ||| u == 0x205f
    ||| u == 0x3000
}

/// Whether `c` is white space, as `char::is_whitespace` decides.
pub fn is_space_char(c: char) -> (b: bool)
    ensures
        b == is_space(c),
{
    let u = c as u32;
    (0x09 <= u && u <= 0x0d) || u == 0x20 || u == 0x85 || u == 0xa0 || u == 0x1680 || (0x2000
        <= u && u <= 0x200a) || u == 0x2028 || u == 0x2029 || u == 0x202f || u == 0x205f || u
        == 0x3000
}

/// The characters of `s`, in order.
pub fn chars_of(s: &str) -> (v: Vec<char>)
    ensures
        v@ == s@,
{
    let mut v: Vec<char> = Vec::new();
    for c in it: s.chars()
        invariant
            it.seq() == s@,
            v@ == it.seq().take(it.index() as int),
    {
        v.push(c);
    }
    v
}

/// Whether every character of `s` is white space, so that `s.trim()` is empty.
pub open spec fn all_space(s: Seq<char>) -> bool {
    forall|i: int| 0 <= i < s.len() ==> is_space(#[trigger] s[i])
}

/// Whether `s` trims to the empty string.
pub fn is_blank(s: &str) -> (b: bool)
    ensures
        b == all_space(s@),
{
    let cs = chars_of(s);
    let mut i: usize = 0;
    while i < cs.len()
        invariant
            cs@ == s@,
            i <= cs.len(),
            forall|j: int| 0 <= j < i ==> is_space(#[trigger] s@[j]),
        decreases cs.len() - i,
    {
        if !is_space_char(cs[i]) {
            return false;
        }
        i = i + 1;
    }
    true
}

/// Whether position `i` of `s` starts a word: a character that is not
/// white space, at the start or after white space.
pub open spec fn starts_word(s: Seq<char>, i: int) -> bool {
    &&& 0 <= i < s.len()
    &&& !is_space(s[i])
    &&& (i == 0 || is_space(s[i - 1]))
}

/// The number of words of `s`, as `s.split_whitespace().count()` gives it:
/// the maximal runs of characters that are not white space.
pub open spec fn word_count_of(s: Seq<char>) -> nat
    decreases s.len(),
{
    if s.len() == 0 {
        0
    } else {
        word_count_of(s.drop_last()) + if starts_word(s, s.len() - 1) {
            1nat
        } else {
            0nat
        }
    }
}

/// The number of newline characters of `s`.
pub open spec fn newline_count(s: Seq<char>) -> nat
    decreases s.len(),
{
    if s.len() == 0 {
        0
    } else {
        newline_count(s.drop_last()) + if s.last() == '\n' {
            1nat
        } else {
            0nat
        }
    }
}

proof fn lemma_newline_count_bound(s: Seq<char>)
    ensures
        newline_count(s) <= s.len(),
    decreases s.len(),
{
    if s.len() > 0 {
        lemma_newline_count_bound(s.drop_last());
    }
}

/// The number of lines of `s`, as `s.lines().count()` gives it: a line ends
/// at each newline, and text after the last newline is one more line.
pub open spec fn line_count_of(s: Seq<char>) -> nat {
    if s.len() == 0 {
        0
    } else if s.last() == '\n' {
        newline_count(s)
    } else {
        newline_count(s) + 1
    }
}

/// The word count and the line count of `s`, shown in focus mode.
pub fn word_and_line_counts(s: &str) -> (r: (usize, usize))
    ensures
        r.0 == word_count_of(s@),
        r.1 == line_count_of(s@),
{
    let cs = chars_of(s);
    let mut words: usize = 0;
    let mut newlines: usize = 0;
    let mut i: usize = 0;
    while i < cs.len()
        invariant
            cs@ == s@,
            i <= cs.len(),
            words == word_count_of(s@.take(i as int)),
            newlines == newline_count(s@.take(i as int)),
            words <= i,
            newlines <= i,
        decreases cs.len() - i,
    {
        let ghost prefix = s@.take(i as int);
        let ghost next = s@.take(i + 1);
        assert(next.drop_last() =~= prefix);
        let starts = !is_space_char(cs[i]) && (i == 0 || is_space_char(cs[i - 1]));
        assert(starts == starts_word(next, next.len() - 1));
        if starts {
            words = words + 1;
        }
        if cs[i] == '\n' {
            newlines = newlines + 1;
        }
        i = i + 1;
    }
    assert(s@.take(cs.len() as int) =~= s@);
    let lines = if cs.len() == 0 {
        0
    } else if cs[cs.len() - 1] == '\n' {
        newlines
    } else {
        proof {
            lemma_newline_count_bound(s@.drop_last());
        }
        newlines + 1
    };
    (words, lines)
}

/// The label that `truncate` gives: `s` itself when it has at most `max`
/// characters, else its first `max - 1` characters (none when `max` is 0)
/// followed by an ellipsis.
pub open spec fn truncated(s: Seq<char>, max: nat) -> Seq<char> {
    if s.len() <= max {
        s
    } else {
        s.take(if max == 0 { 0 } else { max - 1 }) + seq!['\u{2026}']
    }
}

/// Shortens `s` to at most `max_chars` characters for a tab card, marking a
/// cut with an ellipsis.
pub fn truncate(s: &str, max_chars: usize) -> (r: String)
    ensures
        r@ == truncated(s@, max_chars as nat),
{
    let n = s.unicode_len();
    if n <= max_chars {
        String::from_str(s)
    } else {
        let keep = if max_chars == 0 { 0 } else { max_chars - 1 };
        let head = s.substring_char(0, keep);
        let ellipsis = "\u{2026}";
        proof {
            reveal_strlit("\u{2026}");
        }
        let r = String::from_str(head).concat(ellipsis);
        assert(r@ =~= truncated(s@, max_chars as nat));
        r
    }
}

} // verus!
