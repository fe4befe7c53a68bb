use vstd::prelude::*;

use crate::md5sum::{char_is_whitespace, is_white_space};
use crate::text::{join, join_strings, split_char, split_on_char, str_chars, string_from_chars, string_views};

verus! {

/// How many bytes UTF-8 takes for a character.
pub open spec fn utf8_len(c: char) -> nat {
    if (c as u32) < 0x80 {
        1
    } else if (c as u32) < 0x800 {
        2
    } else if (c as u32) < 0x10000 {
        3
    } else {
        4
    }
}

/// How many bytes UTF-8 takes for a text, as `str::len` counts them.
pub open spec fn byte_len(s: Seq<char>) -> nat
    decreases s.len(),
{
    if s.len() == 0 {
        0
    } else {
        byte_len(s.drop_last()) + utf8_len(s.last())
    }
}

/// The text without its trailing whitespace, as `str::trim_end` gives it.
pub open spec fn trim_end_white(s: Seq<char>) -> Seq<char>
    decreases s.len(),
{
    if s.len() > 0 && is_white_space(s.last()) {
        trim_end_white(s.drop_last())
    } else {
        s
    }
}

/// The largest byte length among some lines (zero for none).
pub open spec fn max_byte_len(lines: Seq<Seq<char>>) -> nat
    decreases lines.len(),
{
    if lines.len() == 0 {
        0
    } else {
        let m = max_byte_len(lines.drop_last());
        let b = byte_len(lines.last());
        if b > m { b } else { m }
    }
}

/// The lines of a text box, each without trailing whitespace.
pub open spec fn trimmed_lines(lines: Seq<Seq<char>>) -> Seq<Seq<char>> {
    Seq::new(lines.len(), |i: int| trim_end_white(lines[i]))
}

/// A read-only text box: its rows, its columns and its content.
#[derive(Debug, Clone, PartialEq, Eq)]
pub struct TextBox {
    pub rows: usize,
    pub cols: usize,
    pub content: String,
}

proof fn lemma_trim_end_white(s: Seq<char>, j: int)
    requires
        0 <= j <= s.len(),
        forall|k: int| j <= k < s.len() ==> is_white_space(#[trigger] s[k]),
        j == 0 || !is_white_space(s[j - 1]),
    ensures
        trim_end_white(s) == s.take(j),
    decreases s.len() - j,
{
    if j < s.len() {
        assert(is_white_space(s[s.len() - 1]));
        assert forall|k: int| j <= k < s.drop_last().len() implies is_white_space(#[trigger] s.drop_last()[k]) by {
            assert(s.drop_last()[k] == s[k]);
        }
        if j > 0 {
            assert(s.drop_last()[j - 1] == s[j - 1]);
        }
        lemma_trim_end_white(s.drop_last(), j);
        assert(s.drop_last().take(j) =~= s.take(j));
    } else {
        assert(s.take(j) =~= s);
    }
}

fn utf8_width(c: char) -> (r: usize)
    ensures
        r == utf8_len(c),
{
    if (c as u32) < 0x80 {
        1
    } else if (c as u32) < 0x800 {
        2
    } else if (c as u32) < 0x10000 {
        3
    } else {
        4
    }
}

proof fn lemma_byte_len_bound(s: Seq<char>)
    ensures
        byte_len(s) <= 4 * s.len(),
    decreases s.len(),
{
    if s.len() > 0 {
        lemma_byte_len_bound(s.drop_last());
    }
}

/// A line without trailing whitespace, and its byte length.
fn trim_line(line: &str) -> (r: (String, usize))
    requires
        4 * line@.len() <= usize::MAX,
    ensures
        r.0@ == trim_end_white(line@),
        r.1 == byte_len(trim_end_white(line@)),
{
    let cs = str_chars(line);
    let mut j: usize = cs.len();
    while j > 0 && char_is_whitespace(cs[j - 1])
        invariant
            j <= cs@.len(),
            forall|k: int| j <= k < cs@.len() ==> is_white_space(#[trigger] cs@[k]),
        decreases j,
    {
        j -= 1;
    }
    proof {
        lemma_trim_end_white(cs@, j as int);
    }
    let mut out: Vec<char> = Vec::new();
    let mut bytes: usize = 0;
    let mut k: usize = 0;
    while k < j
        invariant
            k <= j <= cs@.len(),
            4 * cs@.len() <= usize::MAX,
            out@ == cs@.take(k as int),
            bytes == byte_len(cs@.take(k as int)),
        decreases j - k,
    {
        proof {
            assert(cs@.take(k + 1).drop_last() =~= cs@.take(k as int));
            lemma_byte_len_bound(cs@.take(k + 1));
        }
        bytes = bytes + utf8_width(cs[k]);
        out.push(cs[k]);
        assert(out@ =~= cs@.take(k + 1));
        k += 1;
    }
    (string_from_chars(&out), bytes)
}

/// The text box that shows `lines`: each line loses its trailing
/// whitespace; the box has `row_pad` rows more than there are lines and
/// `col_pad` columns more than the longest line has bytes.
pub open spec fn spec_text_box(lines: Seq<Seq<char>>, row_pad: nat, col_pad: nat) -> (nat, nat, Seq<char>) {
    let t = trimmed_lines(lines);
    (lines.len() + row_pad, max_byte_len(t) + col_pad, join(t, "\n"@))
}

/// Lays out lines of text in a read-only text box.
pub fn text_box(lines: &Vec<String>, row_pad: usize, col_pad: usize) -> (r: TextBox)
    requires
        lines@.len() + row_pad <= usize::MAX,
        forall|i: int| 0 <= i < lines@.len() ==> 4 * (#[trigger] lines@[i])@.len() + col_pad <= usize::MAX,
    ensures
        (r.rows as nat, r.cols as nat, r.content@) == spec_text_box(string_views(lines@), row_pad as nat, col_pad as nat),
{
    let ghost views = string_views(lines@);
    let mut trimmed: Vec<String> = Vec::new();
    let mut longest: usize = 0;
    let mut i: usize = 0;
    while i < lines.len()
        invariant
            i <= lines@.len(),
            views == string_views(lines@),
            forall|i: int| 0 <= i < lines@.len() ==> 4 * (#[trigger] lines@[i])@.len() + col_pad <= usize::MAX,
            trimmed@.len() == i,
            forall|k: int| 0 <= k < i ==> (#[trigger] trimmed@[k])@ == trim_end_white(views[k]),
            longest == max_byte_len(trimmed_lines(views.take(i as int))),
            longest + col_pad <= usize::MAX,
        decreases lines@.len() - i,
    {
        let (t, b) = trim_line(lines[i].as_str());
        proof {
            assert(views[i as int] == lines@[i as int]@);
            lemma_byte_len_bound(trim_end_white(lines@[i as int]@));
            lemma_trim_end_shorter(lines@[i as int]@);
            assert(trimmed_lines(views.take(i + 1)).drop_last() =~= trimmed_lines(views.take(i as int)));
            assert(trimmed_lines(views.take(i + 1)).last() == trim_end_white(views[i as int]));
        }
        if b > longest {
            longest = b;
        }
        trimmed.push(t);
        i += 1;
    }
    assert(views.take(lines@.len() as int) =~= views);
    assert(string_views(trimmed@) =~= trimmed_lines(views));
    let content = join_strings(&trimmed, "\n");
    TextBox { rows: lines.len() + row_pad, cols: longest + col_pad, content }
}

proof fn lemma_trim_end_shorter(s: Seq<char>)
    ensures
        trim_end_white(s).len() <= s.len(),
    decreases s.len(),
{
    if s.len() > 0 && is_white_space(s.last()) {
        lemma_trim_end_shorter(s.drop_last());
    }
}

/// The box of the current conditions: the text's lines, two rows and two
/// columns of margin.
pub fn weather_text_box(text: &str) -> (r: TextBox)
    requires
        4 * text@.len() + 2 <= usize::MAX,
    ensures
        (r.rows as nat, r.cols as nat, r.content@) == spec_text_box(split_char(text@, '\n'), 2, 2),
{
    let lines = split_on_char(text, '\n');
    proof {
        crate::text::lemma_split_pieces_shorter(text@, '\n');
        assert forall|i: int| 0 <= i < lines@.len() implies 4 * (#[trigger] lines@[i])@.len() + 2 <= usize::MAX by {
            assert(string_views(lines@)[i] == lines@[i]@);
        }
        crate::text::lemma_split_len_bound(text@, '\n');
    }
    text_box(&lines, 2, 2)
}

} // verus!
