use vstd::prelude::*;
use crate::text::string_views;

verus! {

/// The pages the front end can show.
#[derive(Debug, Clone, Copy, PartialEq, Eq, Structural)]
pub enum WeatherPage {
    Index,
    Plot,
    HistoryPlot,
    Wasm,
}

/// The path of each page, relative to the host.
pub open spec fn page_path(page: WeatherPage) -> Seq<char> {
    match page {
        WeatherPage::Index => "weather/index.html"@,
        WeatherPage::Plot => "weather/plot.html"@,
        WeatherPage::HistoryPlot => "weather/history_plot.html"@,
        WeatherPage::Wasm => "wasm_weather/index.html"@,
    }
}

impl WeatherPage {
    /// The page's path relative to the host.
    pub fn to_str(self) -> (r: &'static str)
        ensures
            r@ == page_path(self),
    {
        match self {
            Self::Index => "weather/index.html",
            Self::Plot => "weather/plot.html",
            Self::HistoryPlot => "weather/history_plot.html",
            Self::Wasm => "wasm_weather/index.html",
        }
    }
}

/// Where the front end asks for the recorded locations: the page's own host
/// when it was served over https, the public host otherwise.
pub open spec fn spec_locations_url(protocol: Seq<char>, host: Seq<char>) -> Seq<char> {
    if protocol != "https:"@ {
        "https://www.ddboline.net/weather/locations"@
    } else {
        "https://"@ + host + "/weather/locations"@
    }
}

/// The url of the recorded-locations listing.
pub fn locations_url(protocol: &str, host: &str) -> (r: String)
    ensures
        r@ == spec_locations_url(protocol@, host@),
{
    if String::from_str(protocol) != String::from_str("https:") {
        String::from_str("https://www.ddboline.net/weather/locations")
    } else {
        String::from_str("https://").concat(host).concat("/weather/locations")
    }
}

/// The search text shown before the user has searched anything.
pub const DEFAULT_STR: &'static str = "11106";

/// The host that serves the web pages.
pub const DEFAULT_HOST: &'static str = "cloud.ddboline.net";

/// The location shown at start.
pub const DEFAULT_LOCATION: &'static str = "10001";

/// A location and how many observations were recorded for it.
#[derive(Debug, Clone, PartialEq, Eq)]
pub struct LocationCount {
    pub location: String,
    pub count: i64,
}

/// The window of a paginated listing.
#[derive(Debug, Clone, Copy, PartialEq, Eq, Structural)]
pub struct Pagination {
    pub limit: usize,
    pub offset: usize,
    pub total: usize,
}

/// One page of location counts.
#[derive(Debug, Clone, PartialEq, Eq)]
pub struct PaginatedLocationCount {
    pub pagination: Pagination,
    pub data: Vec<LocationCount>,
}

/// The search history after searching `s`: `s` first, then the earlier
/// entries other than `s`, in their order.
pub open spec fn spec_update_search_history(sh: Seq<Seq<char>>, s: Seq<char>) -> Seq<Seq<char>> {
    seq![s] + sh.filter(differs_from(s))
}

/// The search history after searching `s`, most recent first.
pub fn update_search_history(sh: &Vec<String>, s: &str) -> (r: Vec<String>)
    ensures
        string_views(r@) == spec_update_search_history(string_views(sh@), s@),
{
    let ghost pred = differs_from(s@);
    let mut v: Vec<String> = Vec::new();
    v.push(String::from_str(s));
    let mut i: usize = 0;
    proof {
        reveal_with_fuel(Seq::filter, 1);
        assert(string_views(sh@).take(0) =~= Seq::<Seq<char>>::empty());
        assert(string_views(v@) =~= seq![s@] + string_views(sh@).take(0).filter(pred));
    }
    while i < sh.len()
        invariant
            i <= sh@.len(),
            v@.len() >= 1,
            v@[0]@ == s@,
            pred == differs_from(s@),
            string_views(v@) =~= seq![s@] + string_views(sh@).take(i as int).filter(pred),
        decreases sh@.len() - i,
    {
        let x = &sh[i];
        proof {
            reveal_with_fuel(Seq::filter, 1);
            assert(string_views(sh@).take(i + 1).drop_last() =~= string_views(sh@).take(i as int));
            assert(string_views(sh@).take(i + 1).last() == x@);
        }
        if *x == v[0] {
            assert(string_views(v@) =~= seq![s@] + string_views(sh@).take(i + 1).filter(pred));
        } else {
            let ghost old_v = v@;
            v.push(x.clone());
            assert(pred(x@));
            assert(string_views(v@) =~= string_views(old_v).push(x@));
            assert(string_views(v@) =~= seq![s@] + string_views(sh@).take(i + 1).filter(pred));
        }
        i += 1;
    }
    assert(string_views(sh@).take(sh@.len() as int) =~= string_views(sh@));
    v
}

/// The search history after choosing `s` where the newest entry is kept last:
/// the earlier entries other than `s`, in their order, then `s`.
pub open spec fn spec_push_search_history(sh: Seq<Seq<char>>, s: Seq<char>) -> Seq<Seq<char>> {
    sh.filter(differs_from(s)).push(s)
}

/// The search history after choosing `s`, most recent last.
pub fn push_search_history(sh: &Vec<String>, s: &str) -> (r: Vec<String>)
    ensures
        string_views(r@) == spec_push_search_history(string_views(sh@), s@),
{
    let ghost pred = differs_from(s@);
    let target = String::from_str(s);
    let mut v: Vec<String> = Vec::new();
    let mut i: usize = 0;
    proof {
        reveal_with_fuel(Seq::filter, 1);
        assert(string_views(sh@).take(0) =~= Seq::<Seq<char>>::empty());
    }
    while i < sh.len()
        invariant
            i <= sh@.len(),
            target@ == s@,
            pred == differs_from(s@),
            string_views(v@) =~= string_views(sh@).take(i as int).filter(pred),
        decreases sh@.len() - i,
    {
        let x = &sh[i];
        proof {
            reveal_with_fuel(Seq::filter, 1);
            assert(string_views(sh@).take(i + 1).drop_last() =~= string_views(sh@).take(i as int));
            assert(string_views(sh@).take(i + 1).last() == x@);
        }
        if *x != target {
            let ghost old_v = v@;
            v.push(x.clone());
            assert(string_views(v@) =~= string_views(old_v).push(x@));
        }
        assert(string_views(v@) =~= string_views(sh@).take(i + 1).filter(pred));
        i += 1;
    }
    assert(string_views(sh@).take(sh@.len() as int) =~= string_views(sh@));
    v.push(target);
    assert(string_views(v@) =~= spec_push_search_history(string_views(sh@), s@));
    v
}

/// The predicate "differs from `s`".
pub open spec fn differs_from(s: Seq<char>) -> spec_fn(Seq<char>) -> bool {
    |x: Seq<char>| x != s
}

proof fn lemma_filter_members<A>(s: Seq<A>, pred: spec_fn(A) -> bool)
    ensures
        forall|x: A| #[trigger] s.filter(pred).contains(x) <==> (s.contains(x) && pred(x)),
        s.filter(pred).len() <= s.len(),
        s.no_duplicates() ==> s.filter(pred).no_duplicates(),
        (forall|i: int| 0 <= i < s.len() ==> pred(#[trigger] s[i])) ==> s.filter(pred) == s,
    decreases s.len(),
{
    reveal_with_fuel(Seq::filter, 1);
    if s.len() > 0 {
        let init = s.drop_last();
        let fi = init.filter(pred);
        let f = s.filter(pred);
        lemma_filter_members(init, pred);
        assert(f == if pred(s.last()) { fi.push(s.last()) } else { fi });
        assert forall|x: A| f.contains(x) <==> (s.contains(x) && pred(x)) by {
            if s.contains(x) && pred(x) {
                let k = choose|k: int| 0 <= k < s.len() && s[k] == x;
                if k < s.len() - 1 {
                    assert(init[k] == x);
                    assert(init.contains(x));
                    assert(fi.contains(x));
                    let j = choose|j: int| 0 <= j < fi.len() && fi[j] == x;
                    assert(f[j] == x);
                } else {
                    assert(f[f.len() - 1] == x);
                }
            }
            if f.contains(x) {
                let k = choose|k: int| 0 <= k < f.len() && f[k] == x;
                if pred(s.last()) && k == f.len() - 1 {
                    assert(s[s.len() - 1] == x);
                } else {
                    assert(fi[k] == x);
                    assert(fi.contains(x));
                    let j = choose|j: int| 0 <= j < init.len() && init[j] == x;
                    assert(s[j] == x);
                }
            }
        }
        if s.no_duplicates() {
            assert(init.no_duplicates()) by {
                assert forall|i: int, j: int| 0 <= i < init.len() && 0 <= j < init.len() && i != j implies init[i] != init[j] by {
                    assert(s[i] == init[i] && s[j] == init[j]);
                }
            }
            if pred(s.last()) {
                assert(!init.contains(s.last())) by {
                    if init.contains(s.last()) {
                        let j = choose|j: int| 0 <= j < init.len() && init[j] == s.last();
                        assert(s[j] == s[s.len() - 1]);
                    }
                }
                assert(!fi.contains(s.last()));
                assert forall|i: int, j: int| 0 <= i < f.len() && 0 <= j < f.len() && i != j implies f[i] != f[j] by {
                    if i == f.len() - 1 {
                        assert(fi[j] == f[j]);
                        assert(fi.contains(f[j]));
                    } else if j == f.len() - 1 {
                        assert(fi[i] == f[i]);
                        assert(fi.contains(f[i]));
                    } else {
                        assert(fi[i] == f[i]);
                        assert(fi[j] == f[j]);
                    }
                }
            }
        }
        if forall|i: int| 0 <= i < s.len() ==> pred(#[trigger] s[i]) {
            assert forall|i: int| 0 <= i < init.len() implies pred(#[trigger] init[i]) by {
                assert(s[i] == init[i]);
            }
            assert(pred(s[s.len() - 1]));
            assert(f =~= s);
        }
    }
}

/// After a search for `s`: `s` is the newest entry and occurs nowhere else;
/// every earlier entry is kept; nothing else is added; the history grows by
/// at most one; a history without repeats stays without repeats.
pub proof fn lemma_update_search_history(sh: Seq<Seq<char>>, s: Seq<char>)
    ensures
        spec_update_search_history(sh, s).len() >= 1,
        spec_update_search_history(sh, s)[0] == s,
        forall|i: int|
            1 <= i < spec_update_search_history(sh, s).len() ==> #[trigger] spec_update_search_history(sh, s)[i] != s,
        forall|x: Seq<char>| #[trigger] sh.contains(x) ==> spec_update_search_history(sh, s).contains(x),
        forall|x: Seq<char>|
            #[trigger] spec_update_search_history(sh, s).contains(x) ==> x == s || sh.contains(x),
        spec_update_search_history(sh, s).len() <= sh.len() + 1,
        sh.no_duplicates() ==> spec_update_search_history(sh, s).no_duplicates(),
{
    let pred = differs_from(s);
    let f = sh.filter(pred);
    let r = spec_update_search_history(sh, s);
    lemma_filter_members(sh, pred);
    assert(r =~= seq![s] + f);
    assert forall|i: int| 1 <= i < r.len() implies #[trigger] r[i] != s by {
        assert(r[i] == f[i - 1]);
        assert(f.contains(f[i - 1]));
    }
    assert forall|x: Seq<char>| #[trigger] sh.contains(x) implies r.contains(x) by {
        if x == s {
            assert(r[0] == x);
        } else {
            assert(f.contains(x));
            let k = choose|k: int| 0 <= k < f.len() && f[k] == x;
            assert(r[k + 1] == x);
        }
    }
    assert forall|x: Seq<char>| #[trigger] r.contains(x) implies x == s || sh.contains(x) by {
        let k = choose|k: int| 0 <= k < r.len() && r[k] == x;
        if k > 0 {
            assert(f[k - 1] == x);
            assert(f.contains(x));
        }
    }
    if sh.no_duplicates() {
        assert forall|i: int, j: int| 0 <= i < r.len() && 0 <= j < r.len() && i != j implies r[i] != r[j] by {
            if i > 0 && j > 0 {
                assert(r[i] == f[i - 1] && r[j] == f[j - 1]);
            } else if i == 0 {
                assert(f.contains(f[j - 1]));
            } else {
                assert(f.contains(f[i - 1]));
            }
        }
    }
}

/// Searching the same text twice in a row leaves the history as searching it
/// once does.
pub proof fn lemma_update_search_history_idempotent(sh: Seq<Seq<char>>, s: Seq<char>)
    ensures
        spec_update_search_history(spec_update_search_history(sh, s), s) == spec_update_search_history(sh, s),
{
    let pred = differs_from(s);
    let f = sh.filter(pred);
    let r = spec_update_search_history(sh, s);
    lemma_filter_members(sh, pred);
    lemma_filter_members(f, pred);
    lemma_filter_members(r, pred);
    reveal_with_fuel(Seq::filter, 2);
    assert forall|i: int| 0 <= i < f.len() implies pred(#[trigger] f[i]) by {
        assert(f.contains(f[i]));
    }
    assert(f.filter(pred) == f);
    assert(r =~= seq![s] + f);
    assert((seq![s] + f).filter(pred) == seq![s].filter(pred) + f.filter(pred)) by {
        Seq::filter_distributes_over_add(seq![s], f, pred);
    }
    assert(seq![s].drop_last() =~= Seq::<Seq<char>>::empty());
    assert(seq![s].filter(pred) =~= Seq::<Seq<char>>::empty());
    assert(r.filter(pred) =~= f);
}

/// After choosing `s` in a history kept oldest first: `s` is the last entry and
/// occurs nowhere else; every earlier entry is kept; nothing else is added.
pub proof fn lemma_push_search_history(sh: Seq<Seq<char>>, s: Seq<char>)
    ensures
        spec_push_search_history(sh, s).last() == s,
        forall|i: int|
            0 <= i < spec_push_search_history(sh, s).len() - 1 ==> #[trigger] spec_push_search_history(sh, s)[i] != s,
        forall|x: Seq<char>| #[trigger] sh.contains(x) ==> spec_push_search_history(sh, s).contains(x),
        forall|x: Seq<char>|
            #[trigger] spec_push_search_history(sh, s).contains(x) ==> x == s || sh.contains(x),
        spec_push_search_history(sh, s).len() <= sh.len() + 1,
{
    let pred = differs_from(s);
    let f = sh.filter(pred);
    let r = spec_push_search_history(sh, s);
    lemma_filter_members(sh, pred);
    assert forall|i: int| 0 <= i < r.len() - 1 implies #[trigger] r[i] != s by {
        assert(r[i] == f[i]);
        assert(f.contains(f[i]));
    }
    assert forall|x: Seq<char>| #[trigger] sh.contains(x) implies r.contains(x) by {
        if x == s {
            assert(r[r.len() - 1] == x);
        } else {
            assert(f.contains(x));
            let k = choose|k: int| 0 <= k < f.len() && f[k] == x;
            assert(r[k] == x);
        }
    }
    assert forall|x: Seq<char>| #[trigger] r.contains(x) implies x == s || sh.contains(x) by {
        let k = choose|k: int| 0 <= k < r.len() && r[k] == x;
        if k < r.len() - 1 {
            assert(f[k] == x);
            assert(f.contains(x));
        }
    }
}

} // verus!
