use vstd::prelude::*;

use crate::text::{str_chars, string_views};

verus! {

/// The order of strings: character by character, a proper prefix first.
pub open spec fn str_lt(a: Seq<char>, b: Seq<char>) -> bool
    decreases a.len(),
{
    if a.len() == 0 {
        b.len() > 0
    } else if b.len() == 0 {
        false
    } else if a[0] != b[0] {
        a[0] < b[0]
    } else {
        str_lt(a.drop_first(), b.drop_first())
    }
}

/// No string is before itself, and of two different strings one is first.
pub proof fn lemma_str_lt_total(a: Seq<char>, b: Seq<char>)
    ensures
        !str_lt(a, a),
        a != b ==> (str_lt(a, b) || str_lt(b, a)),
        !(str_lt(a, b) && str_lt(b, a)),
    decreases a.len(),
{
    if a.len() > 0 {
        lemma_str_lt_total(a.drop_first(), a.drop_first());
        if b.len() > 0 {
            lemma_str_lt_total(a.drop_first(), b.drop_first());
            if a[0] == b[0] && a != b {
                assert(a.drop_first() != b.drop_first()) by {
                    if a.drop_first() == b.drop_first() {
                        assert(a =~= seq![a[0]] + a.drop_first());
                        assert(b =~= seq![b[0]] + b.drop_first());
                    }
                }
            }
        }
    } else if b.len() == 0 {
        assert(a =~= b);
    }
}

/// The order of strings is transitive.
pub proof fn lemma_str_lt_transitive(a: Seq<char>, b: Seq<char>, c: Seq<char>)
    requires
        str_lt(a, b),
        str_lt(b, c),
    ensures
        str_lt(a, c),
    decreases a.len(),
{
    if a.len() > 0 && b.len() > 0 && c.len() > 0 {
        if a[0] == b[0] && b[0] == c[0] {
            lemma_str_lt_transitive(a.drop_first(), b.drop_first(), c.drop_first());
        }
    }
}

/// Whether `a` comes before `b`.
pub fn str_less(a: &String, b: &String) -> (r: bool)
    ensures
        r == str_lt(a@, b@),
{
    let x = str_chars(a.as_str());
    let y = str_chars(b.as_str());
    let mut i: usize = 0;
    assert(x@.skip(0) =~= x@);
    assert(y@.skip(0) =~= y@);
    while i < x.len() && i < y.len() && x[i] == y[i]
        invariant
            i <= x@.len(),
            i <= y@.len(),
            x@ == a@,
            y@ == b@,
            str_lt(a@, b@) == str_lt(x@.skip(i as int), y@.skip(i as int)),
        decreases x@.len() - i,
    {
        proof {
            assert(x@.skip(i as int).drop_first() =~= x@.skip(i + 1));
            assert(y@.skip(i as int).drop_first() =~= y@.skip(i + 1));
        }
        i += 1;
    }
    proof {
        if i < x@.len() {
            assert(x@.skip(i as int)[0] == x@[i as int]);
        }
        if i < y@.len() {
            assert(y@.skip(i as int)[0] == y@[i as int]);
        }
    }
    if i == x.len() {
        i < y.len()
    } else if i == y.len() {
        false
    } else {
        x[i] < y[i]
    }
}

/// Strictly increasing in the order of strings, hence without repeats.
pub open spec fn sorted_strict(v: Seq<Seq<char>>) -> bool {
    forall|i: int, j: int| 0 <= i < j < v.len() ==> str_lt(#[trigger] v[i], #[trigger] v[j])
}

proof fn lemma_insert_sorted(v: Seq<Seq<char>>, p: int, x: Seq<char>)
    requires
        sorted_strict(v),
        0 <= p <= v.len(),
        forall|k: int| 0 <= k < p ==> str_lt(#[trigger] v[k], x),
        p < v.len() ==> str_lt(x, v[p]),
    ensures
        sorted_strict(v.insert(p, x)),
{
    let w = v.insert(p, x);
    assert forall|i: int, j: int| 0 <= i < j < w.len() implies str_lt(#[trigger] w[i], #[trigger] w[j]) by {
        if j < p {
            assert(w[i] == v[i] && w[j] == v[j]);
        } else if j == p {
            assert(w[i] == v[i]);
        } else if i < p {
            assert(w[i] == v[i] && w[j] == v[j - 1]);
            assert(str_lt(v[i], x));
            if j - 1 > p {
                lemma_str_lt_transitive(x, v[p], v[j - 1]);
            }
            lemma_str_lt_transitive(v[i], x, v[j - 1]);
        } else if i == p {
            assert(w[j] == v[j - 1]);
            if j - 1 > p {
                lemma_str_lt_transitive(x, v[p], v[j - 1]);
            }
        } else {
            assert(w[i] == v[i - 1] && w[j] == v[j - 1]);
        }
    }
}

/// Adds `x` to a sorted list unless it is there already.
fn insert_sorted(v: &mut Vec<String>, x: String)
    requires
        sorted_strict(string_views(old(v)@)),
    ensures
        sorted_strict(string_views(final(v)@)),
        forall|y: Seq<char>| string_views(final(v)@).contains(y) <==> (string_views(old(v)@).contains(y) || y == x@),
{
    let ghost before = string_views(v@);
    let mut p: usize = 0;
    while p < v.len() && str_less(&v[p], &x)
        invariant
            p <= v@.len(),
            string_views(v@) == before,
            before == string_views(old(v)@),
            sorted_strict(before),
            forall|k: int| 0 <= k < p ==> str_lt(#[trigger] before[k], x@),
        decreases v@.len() - p,
    {
        assert(before[p as int] == v@[p as int]@);
        p += 1;
    }
    let present = p < v.len() && v[p] == x;
    if present {
        proof {
            assert(before[p as int] == x@);
            assert(before.contains(x@));
        }
    } else {
        proof {
            if p < v@.len() {
                assert(before[p as int] == v@[p as int]@);
                lemma_str_lt_total(x@, before[p as int]);
            }
            lemma_insert_sorted(before, p as int, x@);
        }
        let ghost xv = x@;
        v.insert(p, x);
        assert(string_views(v@) =~= before.insert(p as int, xv));
        assert forall|y: Seq<char>| string_views(v@).contains(y) <==> (before.contains(y) || y == xv) by {
            let w = string_views(v@);
            if before.contains(y) {
                let k = choose|k: int| 0 <= k < before.len() && before[k] == y;
                if k < p {
                    assert(w[k] == y);
                } else {
                    assert(w[k + 1] == y);
                }
            }
            if y == xv {
                assert(w[p as int] == y);
            }
            if w.contains(y) {
                let k = choose|k: int| 0 <= k < w.len() && w[k] == y;
                if k < p {
                    assert(before[k] == y);
                } else if k > p {
                    assert(before[k - 1] == y);
                }
            }
        }
    }
}

/// Every entry of the search history and of the recorded locations, once
/// each, in the order of strings.
pub fn location_choices(search_history: &Vec<String>, history_locations: &Vec<String>) -> (r: Vec<String>)
    ensures
        sorted_strict(string_views(r@)),
        forall|y: Seq<char>| string_views(r@).contains(y) <==> (string_views(search_history@).contains(y)
            || string_views(history_locations@).contains(y)),
{
    let mut out: Vec<String> = Vec::new();
    let mut i: usize = 0;
    while i < search_history.len()
        invariant
            i <= search_history@.len(),
            sorted_strict(string_views(out@)),
            forall|y: Seq<char>| string_views(out@).contains(y) <==> string_views(search_history@).take(i as int).contains(y),
        decreases search_history@.len() - i,
    {
        let ghost prev = string_views(out@);
        insert_sorted(&mut out, search_history[i].clone());
        proof {
            let t = string_views(search_history@).take(i + 1);
            assert(t =~= string_views(search_history@).take(i as int).push(search_history@[i as int]@));
            assert forall|y: Seq<char>| string_views(out@).contains(y) <==> t.contains(y) by {
                let t0 = string_views(search_history@).take(i as int);
                if t.contains(y) {
                    let k = choose|k: int| 0 <= k < t.len() && t[k] == y;
                    if k < i {
                        assert(t0[k] == y);
                    }
                }
                if t0.contains(y) {
                    let k = choose|k: int| 0 <= k < t0.len() && t0[k] == y;
                    assert(t[k] == y);
                }
                if y == search_history@[i as int]@ {
                    assert(t[i as int] == y);
                }
            }
        }
        i += 1;
    }
    assert(string_views(search_history@).take(search_history@.len() as int) =~= string_views(search_history@));
    let mut j: usize = 0;
    while j < history_locations.len()
        invariant
            j <= history_locations@.len(),
            sorted_strict(string_views(out@)),
            forall|y: Seq<char>| string_views(out@).contains(y) <==> (string_views(search_history@).contains(y)
                || string_views(history_locations@).take(j as int).contains(y)),
        decreases history_locations@.len() - j,
    {
        insert_sorted(&mut out, history_locations[j].clone());
        proof {
            let t = string_views(history_locations@).take(j + 1);
            let t0 = string_views(history_locations@).take(j as int);
            assert(t =~= t0.push(history_locations@[j as int]@));
            assert forall|y: Seq<char>| t.contains(y) <==> (t0.contains(y) || y == history_locations@[j as int]@) by {
                if t.contains(y) {
                    let k = choose|k: int| 0 <= k < t.len() && t[k] == y;
                    if k < j {
                        assert(t0[k] == y);
                    }
                }
                if t0.contains(y) {
                    let k = choose|k: int| 0 <= k < t0.len() && t0[k] == y;
                    assert(t[k] == y);
                }
                if y == history_locations@[j as int]@ {
                    assert(t[j as int] == y);
                }
            }
        }
        j += 1;
    }
    assert(string_views(history_locations@).take(history_locations@.len() as int) =~= string_views(history_locations@));
    out
}

/// A strictly sorted list holds each string once.
pub proof fn lemma_sorted_strict_no_duplicates(v: Seq<Seq<char>>)
    requires
        sorted_strict(v),
    ensures
        v.no_duplicates(),
{
    assert forall|i: int, j: int| 0 <= i < v.len() && 0 <= j < v.len() && i != j implies v[i] != v[j] by {
        if i < j {
            lemma_str_lt_total(v[i], v[i]);
        } else {
            lemma_str_lt_total(v[j], v[j]);
        }
    }
}

/// The recorded location the history page shows: the current one where it is
/// recorded; else the first recorded one in the order of strings; the current
/// one where nothing is recorded.
pub open spec fn spec_history_selection(current: Seq<char>, recorded: Seq<Seq<char>>) -> Seq<char> {
    if recorded.contains(current) || recorded.len() == 0 {
        current
    } else {
        choose|x: Seq<char>| recorded.contains(x) && forall|y: Seq<char>| #[trigger] recorded.contains(y) ==> !str_lt(y, x)
    }
}

/// A nonempty list has a first element in the order of strings, and only one.
proof fn lemma_least_unique(recorded: Seq<Seq<char>>, x: Seq<char>)
    requires
        recorded.contains(x),
        forall|y: Seq<char>| #[trigger] recorded.contains(y) ==> !str_lt(y, x),
    ensures
        forall|z: Seq<char>|
            recorded.contains(z) && (forall|y: Seq<char>| #[trigger] recorded.contains(y) ==> !str_lt(y, z))
                ==> z == x,
{
    assert forall|z: Seq<char>|
        recorded.contains(z) && (forall|y: Seq<char>| #[trigger] recorded.contains(y) ==> !str_lt(y, z))
            implies z == x by {
        lemma_str_lt_total(z, x);
    }
}

/// The recorded location the history page shows.
pub fn history_selection(current: &String, recorded: &Vec<String>) -> (r: String)
    ensures
        r@ == spec_history_selection(current@, string_views(recorded@)),
{
    let ghost views = string_views(recorded@);
    let mut found = false;
    let mut i: usize = 0;
    while i < recorded.len()
        invariant
            i <= recorded@.len(),
            views == string_views(recorded@),
            found <==> exists|j: int| 0 <= j < i && #[trigger] views[j] == current@,
        decreases recorded@.len() - i,
    {
        assert(views[i as int] == recorded@[i as int]@);
        if recorded[i] == *current {
            found = true;
        }
        proof {
            if !found {
                assert forall|j: int| 0 <= j < i + 1 implies #[trigger] views[j] != current@ by {
                    if j < i && views[j] == current@ {
                        assert(exists|j2: int| 0 <= j2 < i && #[trigger] views[j2] == current@);
                    }
                }
            }
        }
        i += 1;
    }
    if found {
        proof {
            let j = choose|j: int| 0 <= j < recorded@.len() && #[trigger] views[j] == current@;
            assert(views.contains(views[j]));
        }
        return current.clone();
    }
    assert(!views.contains(current@)) by {
        if views.contains(current@) {
            let j = choose|j: int| 0 <= j < views.len() && views[j] == current@;
            assert(views[j] == current@);
        }
    }
    if recorded.len() == 0 {
        return current.clone();
    }
    let mut best: usize = 0;
    let mut k: usize = 1;
    proof {
        lemma_str_lt_total(views[0], views[0]);
    }
    while k < recorded.len()
        invariant
            1 <= k <= recorded@.len(),
            best < k,
            views == string_views(recorded@),
            forall|j: int| 0 <= j < k ==> !str_lt(#[trigger] views[j], views[best as int]),
        decreases recorded@.len() - k,
    {
        if str_less(&recorded[k], &recorded[best]) {
            proof {
                assert forall|j: int| 0 <= j < k + 1 implies !str_lt(#[trigger] views[j], views[k as int]) by {
                    if j < k {
                        if str_lt(views[j], views[k as int]) {
                            lemma_str_lt_transitive(views[j], views[k as int], views[best as int]);
                        }
                    } else {
                        lemma_str_lt_total(views[j], views[j]);
                    }
                }
            }
            best = k;
        } else {
            proof {
                lemma_str_lt_total(views[best as int], views[best as int]);
            }
        }
        k += 1;
    }
    let r = recorded[best].clone();
    proof {
        let x = views[best as int];
        assert(views.contains(x));
        assert forall|y: Seq<char>| #[trigger] views.contains(y) implies !str_lt(y, x) by {
            let j = choose|j: int| 0 <= j < views.len() && views[j] == y;
            assert(!str_lt(views[j], x));
        }
        lemma_least_unique(views, x);
    }
    r
}

} // verus!
