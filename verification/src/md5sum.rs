use vstd::prelude::*;

use crate::text::{split_char, split_on_char, str_chars, string_from_chars, string_views};

verus! {

/// Whether a character has the Unicode `White_Space` property, as
/// `char::is_whitespace` tells: the controls U+0009 to U+000D, the space,
/// U+0085, U+00A0, U+1680, U+2000 to U+200A, U+2028, U+2029, U+202F, U+205F
/// and U+3000.
pub open spec fn is_white_space(c: char) -> bool {
    let n = c as u32;
    (9 <= n && n <= 13) || n == 32 || n == 0x85 || n == 0xA0 || n == 0x1680 || (0x2000 <= n && n
        <= 0x200A) || n == 0x2028 || n == 0x2029 || n == 0x202F || n == 0x205F || n == 0x3000
}

/// Whether a character is whitespace.
pub fn char_is_whitespace(c: char) -> (r: bool)
    ensures
        r == is_white_space(c),
{
    ('\u{9}' <= c && c <= '\u{d}') || c == ' ' || c == '\u{85}' || c == '\u{a0}' || c == '\u{1680}' || (
    '\u{2000}' <= c && c <= '\u{200a}') || c == '\u{2028}' || c == '\u{2029}' || c == '\u{202f}' || c
        == '\u{205f}' || c == '\u{3000}'
}

/// The text without its leading whitespace.
pub open spec fn skip_white_space(s: Seq<char>) -> Seq<char>
    decreases s.len(),
{
    if s.len() > 0 && is_white_space(s[0]) {
        skip_white_space(s.drop_first())
    } else {
        s
    }
}

/// The longest prefix of the text without whitespace.
pub open spec fn leading_word(s: Seq<char>) -> Seq<char>
    decreases s.len(),
{
    if s.len() == 0 || is_white_space(s[0]) {
        Seq::<char>::empty()
    } else {
        seq![s[0]] + leading_word(s.drop_first())
    }
}

/// The first whitespace-separated word of a line, if it has one.
pub open spec fn first_word(line: Seq<char>) -> Option<Seq<char>> {
    let rest = skip_white_space(line);
    if rest.len() == 0 {
        None
    } else {
        Some(leading_word(rest))
    }
}

/// The first word of the first line that has one.
pub open spec fn first_word_of_lines(lines: Seq<Seq<char>>) -> Option<Seq<char>>
    decreases lines.len(),
{
    if lines.len() == 0 {
        None
    } else {
        match first_word(lines[0]) {
            Some(w) => Some(w),
            None => first_word_of_lines(lines.drop_first()),
        }
    }
}

/// The checksum that `md5sum` printed: the first word of the first line of
/// its output that holds one.
pub open spec fn spec_md5sum_from_output(out: Seq<char>) -> Option<Seq<char>> {
    first_word_of_lines(split_char(out, '\n'))
}

proof fn lemma_skip_white_space(s: Seq<char>, i: int)
    requires
        0 <= i <= s.len(),
        forall|k: int| 0 <= k < i ==> is_white_space(#[trigger] s[k]),
        i == s.len() || !is_white_space(s[i]),
    ensures
        skip_white_space(s) == s.skip(i),
    decreases i,
{
    if i > 0 {
        assert forall|k: int| 0 <= k < i - 1 implies is_white_space(#[trigger] s.drop_first()[k]) by {
            assert(s.drop_first()[k] == s[k + 1]);
        }
        if i < s.len() {
            assert(s.drop_first()[i - 1] == s[i]);
        }
        lemma_skip_white_space(s.drop_first(), i - 1);
        assert(s.drop_first().skip(i - 1) =~= s.skip(i));
    } else {
        assert(s.skip(0) =~= s);
    }
}

proof fn lemma_leading_word(s: Seq<char>, j: int)
    requires
        0 <= j <= s.len(),
        forall|k: int| 0 <= k < j ==> !is_white_space(#[trigger] s[k]),
        j == s.len() || is_white_space(s[j]),
    ensures
        leading_word(s) == s.take(j),
    decreases j,
{
    if j > 0 {
        assert forall|k: int| 0 <= k < j - 1 implies !is_white_space(#[trigger] s.drop_first()[k]) by {
            assert(s.drop_first()[k] == s[k + 1]);
        }
        if j < s.len() {
            assert(s.drop_first()[j - 1] == s[j]);
        }
        lemma_leading_word(s.drop_first(), j - 1);
        assert(seq![s[0]] + s.drop_first().take(j - 1) =~= s.take(j));
    } else {
        assert(s.take(0) =~= Seq::<char>::empty());
    }
}

fn line_first_word(line: &str) -> (r: Option<String>)
    ensures
        match r {
            Some(w) => first_word(line@) == Some(w@),
            None => first_word(line@) is None,
        },
{
    let cs = str_chars(line);
    let mut i: usize = 0;
    while i < cs.len() && char_is_whitespace(cs[i])
        invariant
            i <= cs@.len(),
            cs@ == line@,
            forall|k: int| 0 <= k < i ==> is_white_space(#[trigger] cs@[k]),
        decreases cs@.len() - i,
    {
        i += 1;
    }
    proof {
        lemma_skip_white_space(cs@, i as int);
    }
    if i == cs.len() {
        return None;
    }
    let mut j: usize = i;
    while j < cs.len() && !char_is_whitespace(cs[j])
        invariant
            i <= j <= cs@.len(),
            forall|k: int| i <= k < j ==> !is_white_space(#[trigger] cs@[k]),
        decreases cs@.len() - j,
    {
        j += 1;
    }
    let ghost rest = cs@.skip(i as int);
    proof {
        assert forall|k: int| 0 <= k < j - i implies !is_white_space(#[trigger] rest[k]) by {
            assert(rest[k] == cs@[i + k]);
        }
        if j < cs@.len() {
            assert(rest[j - i] == cs@[j as int]);
        }
        lemma_leading_word(rest, j - i);
    }
    let mut word: Vec<char> = Vec::new();
    let mut k: usize = i;
    while k < j
        invariant
            i <= k <= j <= cs@.len(),
            word@ == cs@.subrange(i as int, k as int),
        decreases j - k,
    {
        word.push(cs[k]);
        assert(cs@.subrange(i as int, k + 1) =~= cs@.subrange(i as int, k as int).push(cs@[k as int]));
        k += 1;
    }
    assert(word@ =~= rest.take(j - i));
    Some(string_from_chars(&word))
}

/// The checksum in the output of `md5sum`.
pub fn md5sum_from_output(output: &str) -> (r: Option<String>)
    ensures
        match r {
            Some(w) => spec_md5sum_from_output(output@) == Some(w@),
            None => spec_md5sum_from_output(output@) is None,
        },
{
    let lines = split_on_char(output, '\n');
    let ghost all = string_views(lines@);
    let mut i: usize = 0;
    assert(all.skip(0) =~= all);
    while i < lines.len()
        invariant
            i <= lines@.len(),
            all == string_views(lines@),
            all == split_char(output@, '\n'),
            first_word_of_lines(all) == first_word_of_lines(all.skip(i as int)),
        decreases lines@.len() - i,
    {
        let w = line_first_word(lines[i].as_str());
        assert(all.skip(i as int)[0] == lines@[i as int]@);
        assert(all.skip(i as int).drop_first() =~= all.skip(i + 1));
        if w.is_some() {
            return w;
        }
        i += 1;
    }
    assert(all.skip(i as int).len() == 0);
    None
}

} // verus!
