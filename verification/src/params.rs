use vstd::prelude::*;

use crate::decimal::{decimal, push_decimal};
use crate::text::{str_chars, string_from_chars, string_views};

verus! {

/// Whether a character may stand in a parameter name: an ASCII letter, an
/// ASCII digit or `_`.
pub open spec fn is_name_char(c: char) -> bool {
    ('a' <= c && c <= 'z') || ('A' <= c && c <= 'Z') || ('0' <= c && c <= '9') || c == '_'
}

/// The longest prefix of `s` made of name characters.
pub open spec fn leading_name(s: Seq<char>) -> Seq<char>
    decreases s.len(),
{
    if s.len() > 0 && is_name_char(s[0]) {
        seq![s[0]] + leading_name(s.drop_first())
    } else {
        Seq::empty()
    }
}

/// The index of the first of `names` equal to `w`; `names.len()` where none is.
pub open spec fn name_position(names: Seq<Seq<char>>, w: Seq<char>) -> nat
    decreases names.len(),
{
    if names.len() == 0 {
        0
    } else if names[0] == w {
        0
    } else {
        1 + name_position(names.drop_first(), w)
    }
}

pub proof fn lemma_leading_name_len(s: Seq<char>)
    ensures
        leading_name(s).len() <= s.len(),
    decreases s.len(),
{
    if s.len() > 0 && is_name_char(s[0]) {
        lemma_leading_name_len(s.drop_first());
    }
}

/// A query with its named parameters made positional: each `$` followed by a
/// name, the name read as far as name characters go, becomes `$` and the
/// 1-based position of that name in `names` (its first occurrence there).
/// A `$` whose name is not listed, or that no name follows, is kept as it is.
pub open spec fn spec_bind_parameters(s: Seq<char>, names: Seq<Seq<char>>) -> Seq<char>
    decreases s.len(),
{
    if s.len() == 0 {
        Seq::empty()
    } else {
        let w = leading_name(s.drop_first());
        let k = name_position(names, w);
        if s[0] == '$' && w.len() > 0 && k < names.len() {
            proof {
                lemma_leading_name_len(s.drop_first());
            }
            seq!['$'] + decimal(k + 1) + spec_bind_parameters(s.skip(1 + w.len() as int), names)
        } else {
            seq![s[0]] + spec_bind_parameters(s.drop_first(), names)
        }
    }
}

fn name_char(c: char) -> (b: bool)
    ensures
        b == is_name_char(c),
{
    ('a' <= c && c <= 'z') || ('A' <= c && c <= 'Z') || ('0' <= c && c <= '9') || c == '_'
}

proof fn lemma_leading_name_run(s: Seq<char>, a: int, j: int)
    requires
        0 <= a <= j <= s.len(),
        forall|t: int| a <= t < j ==> is_name_char(#[trigger] s[t]),
        j == s.len() || !is_name_char(s[j]),
    ensures
        leading_name(s.skip(a)) == s.subrange(a, j),
    decreases j - a,
{
    if a < j {
        lemma_leading_name_run(s, a + 1, j);
        assert(s.skip(a).drop_first() =~= s.skip(a + 1));
        assert(seq![s[a]] + s.subrange(a + 1, j) =~= s.subrange(a, j));
    } else {
        assert(s.subrange(a, j) =~= Seq::<char>::empty());
    }
}

proof fn lemma_name_position(names: Seq<Seq<char>>, w: Seq<char>, k: int)
    requires
        0 <= k <= names.len(),
        forall|q: int| 0 <= q < k ==> #[trigger] names[q] != w,
        k < names.len() ==> names[k] == w,
    ensures
        name_position(names, w) == k,
    decreases k,
{
    if k > 0 {
        let rest = names.drop_first();
        assert forall|q: int| 0 <= q < k - 1 implies #[trigger] rest[q] != w by {
            assert(rest[q] == names[q + 1]);
        }
        lemma_name_position(rest, w, k - 1);
    }
}

/// The query with its named parameters `$name` written as the positional
/// `$1`, `$2`, .. that the database driver takes, numbered by their order in
/// `names`.
pub fn bind_parameters(query: &str, names: &Vec<String>) -> (r: String)
    ensures
        r@ == spec_bind_parameters(query@, string_views(names@)),
{
    let ghost views = string_views(names@);
    let cs = str_chars(query);
    let mut out: Vec<char> = Vec::new();
    let mut i: usize = 0;
    assert(cs@.skip(0) =~= cs@);
    assert(out@ + spec_bind_parameters(cs@, views) =~= spec_bind_parameters(cs@, views));
    while i < cs.len()
        invariant
            i <= cs@.len(),
            cs@ == query@,
            views == string_views(names@),
            out@ + spec_bind_parameters(cs@.skip(i as int), views) == spec_bind_parameters(cs@, views),
        decreases cs@.len() - i,
    {
        let ghost rest = cs@.skip(i as int);
        assert(rest.drop_first() =~= cs@.skip(i + 1));
        let mut j: usize = i + 1;
        while j < cs.len() && name_char(cs[j])
            invariant
                i + 1 <= j <= cs@.len(),
                forall|t: int| i + 1 <= t < j ==> is_name_char(#[trigger] cs@[t]),
            decreases cs@.len() - j,
        {
            j += 1;
        }
        proof {
            lemma_leading_name_run(cs@, i + 1, j as int);
        }
        let ghost w = cs@.subrange(i + 1, j as int);
        let mut matched = false;
        if cs[i] == '$' && j > i + 1 {
            let mut word = String::new();
            let mut t: usize = i + 1;
            while t < j
                invariant
                    i + 1 <= t <= j <= cs@.len(),
                    word@ == cs@.subrange(i + 1, t as int),
                decreases j - t,
            {
                crate::text::push_char(&mut word, cs[t]);
                assert(cs@.subrange(i + 1, t as int).push(cs@[t as int]) =~= cs@.subrange(i + 1, t + 1));
                t += 1;
            }
            let mut k: usize = 0;
            while k < names.len() && !(names[k] == word)
                invariant
                    k <= names@.len(),
                    views == string_views(names@),
                    forall|q: int| 0 <= q < k ==> #[trigger] views[q] != word@,
                decreases names@.len() - k,
            {
                k += 1;
            }
            proof {
                lemma_name_position(views, word@, k as int);
            }
            if k < names.len() {
                let ghost before = out@;
                out.push('$');
                push_decimal((k + 1) as u64, &mut out);
                assert(rest.skip(1 + w.len() as int) =~= cs@.skip(j as int));
                assert(spec_bind_parameters(rest, views) == seq!['$'] + decimal((k + 1) as nat)
                    + spec_bind_parameters(cs@.skip(j as int), views));
                assert(out@ + spec_bind_parameters(cs@.skip(j as int), views) =~= before
                    + spec_bind_parameters(rest, views));
                i = j;
                matched = true;
            }
        }
        if !matched {
            let ghost before = out@;
            out.push(cs[i]);
            assert(spec_bind_parameters(rest, views) == seq![cs@[i as int]] + spec_bind_parameters(
                cs@.skip(i + 1),
                views,
            ));
            assert(out@ + spec_bind_parameters(cs@.skip(i + 1), views) =~= before
                + spec_bind_parameters(rest, views));
            i += 1;
        }
    }
    assert(cs@.skip(cs@.len() as int) =~= Seq::<char>::empty());
    assert(out@ =~= out@ + Seq::<char>::empty());
    string_from_chars(out.as_slice())
}

} // verus!
