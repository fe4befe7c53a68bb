use vstd::prelude::*;

use crate::choices::{location_choices, sorted_strict, str_lt};
use crate::common::{
    push_search_history, spec_push_search_history, spec_update_search_history,
    update_search_history, LocationCount,
};
use crate::location::{
    get_parameters, locations_equal, same_location, spec_get_parameters, LocationView,
    WeatherLocation,
};
use crate::routes::{
    entries_map, keys_unique, lemma_entries_map_lookup, lemma_entries_map_push,
};
use crate::common::{page_path, WeatherPage, DEFAULT_STR};
use crate::text::string_views;
use url::Url;
use weather_util_rust::weather_api::WeatherLocation as UtilLocation;

verus! {

/// Whether `s` is one of `v`.
fn contains_text(v: &Vec<String>, s: &String) -> (r: bool)
    ensures
        r == string_views(v@).contains(s@),
{
    let ghost views = string_views(v@);
    let mut i: usize = 0;
    while i < v.len()
        invariant
            i <= v@.len(),
            views == string_views(v@),
            forall|j: int| 0 <= j < i ==> #[trigger] views[j] != s@,
        decreases v@.len() - i,
    {
        assert(views[i as int] == v@[i as int]@);
        if v[i] == *s {
            assert(views.contains(views[i as int]));
            return true;
        }
        i += 1;
    }
    assert(!views.contains(s@)) by {
        if views.contains(s@) {
            let j = choose|j: int| 0 <= j < views.len() && views[j] == s@;
            assert(views[j] != s@);
        }
    }
    false
}

/// A copy of a list of strings.
fn copy_strings(v: &Vec<String>) -> (r: Vec<String>)
    ensures
        string_views(r@) == string_views(v@),
{
    let mut out: Vec<String> = Vec::new();
    let mut i: usize = 0;
    while i < v.len()
        invariant
            i <= v@.len(),
            string_views(out@) == string_views(v@).take(i as int),
        decreases v@.len() - i,
    {
        let c = v[i].clone();
        assert(c@ == v@[i as int]@);
        let ghost prev = out@;
        out.push(c);
        assert(string_views(out@) =~= string_views(prev).push(c@));
        assert(string_views(v@).take(i + 1) =~= string_views(v@).take(i as int).push(string_views(v@)[i as int]));
        assert(string_views(out@) =~= string_views(v@).take(i + 1));
        i += 1;
    }
    assert(string_views(v@).take(v@.len() as int) =~= string_views(v@));
    out
}

/// A copy of a location.
pub fn copy_location(l: &WeatherLocation) -> (r: WeatherLocation)
    ensures
        r@ == l@,
{
    match l {
        WeatherLocation::ZipCode { zipcode, country_code } => WeatherLocation::ZipCode {
            zipcode: *zipcode,
            country_code: *country_code,
        },
        WeatherLocation::CityName(name) => WeatherLocation::CityName(name.clone()),
        WeatherLocation::LatLon { latitude, longitude } => WeatherLocation::LatLon {
            latitude: *latitude,
            longitude: *longitude,
        },
    }
}

/// The search history after a search for `s` from the page: unchanged where
/// `s` is in it already, else with `s` put first.
pub open spec fn spec_add_search(history: Seq<Seq<char>>, s: Seq<char>) -> Seq<Seq<char>> {
    if history.contains(s) {
        history
    } else {
        spec_update_search_history(history, s)
    }
}

fn add_search(history: &Vec<String>, s: &str) -> (r: Vec<String>)
    ensures
        string_views(r@) == spec_add_search(string_views(history@), s@),
{
    let d = String::from_str(s);
    if contains_text(history, &d) {
        copy_strings(history)
    } else {
        update_search_history(history, s)
    }
}

/// What the Location button does with the text typed so far: nothing where
/// it is empty; else the location that the text names, and the search history
/// with the text put first where it was not in it yet.
pub fn submit_location(draft: &str, history: &Vec<String>) -> (r: Option<(WeatherLocation, Vec<String>)>)
    ensures
        r is None <==> draft@.len() == 0,
        r matches Some((l, h)) ==> l@ == spec_get_parameters(draft@) && string_views(h@) == (if string_views(
            history@,
        ).contains(draft@) {
            string_views(history@)
        } else {
            spec_update_search_history(string_views(history@), draft@)
        }),
{
    if draft.unicode_len() == 0 {
        return None;
    }
    let loc = get_parameters(draft);
    let h = add_search(history, draft);
    Some((loc, h))
}

/// The text weather_util_rust writes for a location (its `Display`).
pub uninterp spec fn util_location_text(l: LocationView) -> Seq<char>;

/// Trusted: the `Display` of weather_util_rust's `WeatherLocation`, written
/// for the same location in that crate's type; the text depends on the
/// location alone.
#[verifier::external_body]
fn location_text(l: &WeatherLocation) -> (r: String)
    ensures
        r@ == util_location_text(l@),
{
    let util = match l {
        WeatherLocation::ZipCode { zipcode, country_code } => UtilLocation::ZipCode {
            zipcode: *zipcode,
            country_code: *country_code,
        },
        WeatherLocation::CityName(name) => UtilLocation::CityName(name.as_str().into()),
        WeatherLocation::LatLon { latitude, longitude } => UtilLocation::LatLon {
            latitude: *latitude,
            longitude: *longitude,
        },
    };
    format!("{util}")
}

/// What the Update Location button does: nothing where the location shown is
/// the one found from the address; else that location, and the search history
/// with its text put first where the text was not in it yet.
pub fn update_location(location: &WeatherLocation, ip_location: &WeatherLocation, history: &Vec<String>) -> (r: Option<(WeatherLocation, Vec<String>)>)
    ensures
        r is None <==> same_location(location@, ip_location@),
        r matches Some((l, h)) ==> l@ == ip_location@ && string_views(h@) == spec_add_search(
            string_views(history@),
            util_location_text(ip_location@),
        ),
{
    if locations_equal(location, ip_location) {
        return None;
    }
    let s = location_text(ip_location);
    let h = add_search(history, s.as_str());
    Some((copy_location(ip_location), h))
}

/// What choosing an entry of the page's location selector does: nothing for
/// the empty entry; else the location the entry names, the search history
/// with the entry put first where it was not in it yet, and whether the entry
/// is a recorded location, which then becomes the history page's location.
pub fn choose_index_entry(choice: &str, history: &Vec<String>, recorded: &Vec<String>) -> (r: Option<(WeatherLocation, Vec<String>, bool)>)
    ensures
        r is None <==> choice@.len() == 0,
        r matches Some((l, h, b)) ==> l@ == spec_get_parameters(choice@) && string_views(h@) == spec_add_search(
            string_views(history@),
            choice@,
        ) && b == string_views(recorded@).contains(choice@),
{
    if choice.unicode_len() == 0 {
        return None;
    }
    let loc = get_parameters(choice);
    let h = add_search(history, choice);
    let c = String::from_str(choice);
    let b = contains_text(recorded, &c);
    Some((loc, h, b))
}

/// What choosing an entry of the history page's selector does: nothing for
/// the empty entry; else the entry becomes the history location, and the
/// location shown is the one it names.
pub fn choose_history_entry(choice: &str) -> (r: Option<(String, WeatherLocation)>)
    ensures
        r is None <==> choice@.len() == 0,
        r matches Some((s, l)) ==> s@ == choice@ && l@ == spec_get_parameters(choice@),
{
    if choice.unicode_len() == 0 {
        return None;
    }
    Some((String::from_str(choice), get_parameters(choice)))
}

/// The search history after the Clear button: the single entry `10001`.
pub fn clear_history() -> (r: Vec<String>)
    ensures
        string_views(r@) == seq!["10001"@],
{
    let mut r: Vec<String> = Vec::new();
    r.push(String::from_str("10001"));
    assert(string_views(r@) =~= seq!["10001"@]);
    r
}

/// Whether `y` is among the first `n` of `av`.
pub open spec fn in_prefix(av: Seq<Seq<char>>, n: int, y: Seq<char>) -> bool {
    exists|j: int| 0 <= j < n && av[j] == y
}

/// Whether a choice is offered beside the current location: it names another
/// location.
pub open spec fn offered(y: Seq<char>, current: LocationView) -> bool {
    !same_location(spec_get_parameters(y), current)
}

/// The options of the location selector: the entries of the search history
/// and the recorded locations, once each, in the order of strings, without
/// those that name the current location.
pub fn selector_options(history: &Vec<String>, recorded: &Vec<String>, current: &WeatherLocation) -> (r: Vec<String>)
    ensures
        sorted_strict(string_views(r@)),
        forall|y: Seq<char>| #[trigger] string_views(r@).contains(y) <==> ((string_views(history@).contains(y)
            || string_views(recorded@).contains(y)) && offered(y, current@)),
{
    let all = location_choices(history, recorded);
    let ghost av = string_views(all@);
    let mut out: Vec<String> = Vec::new();
    let mut i: usize = 0;
    while i < all.len()
        invariant
            i <= all@.len(),
            av == string_views(all@),
            sorted_strict(av),
            sorted_strict(string_views(out@)),
            forall|k: int| 0 <= k < out@.len() ==> #[trigger] in_prefix(av, i as int, string_views(out@)[k]),
            forall|y: Seq<char>| #[trigger] string_views(out@).contains(y) <==> in_prefix(av, i as int, y) && offered(y, current@),
        decreases all@.len() - i,
    {
        assert(av[i as int] == all@[i as int]@);
        let ghost prev = string_views(out@);
        let loc = get_parameters(all[i].as_str());
        if !locations_equal(&loc, current) {
            out.push(all[i].clone());
            let ghost now = string_views(out@);
            assert(now =~= prev.push(av[i as int]));
            assert forall|a: int, b: int| 0 <= a < b < now.len() implies str_lt(#[trigger] now[a], #[trigger] now[b]) by {
                if b < prev.len() {
                    assert(now[a] == prev[a] && now[b] == prev[b]);
                } else {
                    assert(now[a] == prev[a]);
                    assert(in_prefix(av, i as int, prev[a]));
                    let j = choose|j: int| 0 <= j < i && av[j] == prev[a];
                    assert(str_lt(av[j], av[i as int]));
                }
            }
            assert forall|k: int| 0 <= k < now.len() implies #[trigger] in_prefix(av, i + 1, now[k]) by {
                if k < prev.len() {
                    assert(now[k] == prev[k]);
                    assert(in_prefix(av, i as int, prev[k]));
                    let j = choose|j: int| 0 <= j < i && av[j] == prev[k];
                    assert(av[j] == now[k]);
                } else {
                    assert(av[i as int] == now[k]);
                }
            }
            assert forall|y: Seq<char>| #[trigger] now.contains(y) <==> in_prefix(av, i + 1, y) && offered(y, current@) by {
                if now.contains(y) {
                    let k = choose|k: int| 0 <= k < now.len() && now[k] == y;
                    if k < prev.len() {
                        assert(prev[k] == y);
                        assert(prev.contains(y));
                        let j = choose|j: int| 0 <= j < i && av[j] == y;
                        assert(av[j] == y);
                    } else {
                        assert(av[i as int] == y);
                    }
                }
                if in_prefix(av, i + 1, y) && offered(y, current@) {
                    let j = choose|j: int| 0 <= j < i + 1 && av[j] == y;
                    if j < i {
                        assert(in_prefix(av, i as int, y));
                        assert(prev.contains(y));
                        let k = choose|k: int| 0 <= k < prev.len() && prev[k] == y;
                        assert(now[k] == y);
                    } else {
                        assert(now[prev.len() as int] == y);
                    }
                }
            }
        } else {
            assert forall|y: Seq<char>| #[trigger] prev.contains(y) <==> in_prefix(av, i + 1, y) && offered(y, current@) by {
                if prev.contains(y) {
                    let j = choose|j: int| 0 <= j < i && av[j] == y;
                    assert(av[j] == y);
                }
                if in_prefix(av, i + 1, y) && offered(y, current@) {
                    let j = choose|j: int| 0 <= j < i + 1 && av[j] == y;
                    if j < i {
                        assert(in_prefix(av, i as int, y));
                    }
                }
            }
            assert forall|k: int| 0 <= k < prev.len() implies #[trigger] in_prefix(av, i + 1, prev[k]) by {
                assert(in_prefix(av, i as int, prev[k]));
                let j = choose|j: int| 0 <= j < i && av[j] == prev[k];
                assert(av[j] == prev[k]);
            }
        }
        i += 1;
    }
    assert forall|y: Seq<char>| #[trigger] string_views(out@).contains(y) <==> ((string_views(history@).contains(y)
        || string_views(recorded@).contains(y)) && offered(y, current@)) by {
        if in_prefix(av, i as int, y) {
            let j = choose|j: int| 0 <= j < i && av[j] == y;
            assert(av.contains(y));
        }
        if av.contains(y) {
            let j = choose|j: int| 0 <= j < av.len() && av[j] == y;
            assert(in_prefix(av, i as int, y));
        }
    }
    out
}

/// The text-to-location cache of the weather app: each search text once,
/// with the location it was read as.
pub struct LocationCache {
    entries: Vec<(String, WeatherLocation)>,
}

impl View for LocationCache {
    type V = Map<Seq<char>, LocationView>;

    closed spec fn view(&self) -> Map<Seq<char>, LocationView> {
        entries_map(self.entries@).map_values(|l: WeatherLocation| l@)
    }
}

impl LocationCache {
    /// The cache's internal invariant: no text occurs twice.
    #[verifier::type_invariant]
    closed spec fn well_formed(&self) -> bool {
        keys_unique(self.entries@)
    }

    /// An empty cache.
    pub fn new() -> (r: Self)
        ensures
            r@ == Map::<Seq<char>, LocationView>::empty(),
    {
        let r = LocationCache { entries: Vec::new() };
        assert(r@ =~= Map::<Seq<char>, LocationView>::empty());
        r
    }

    /// The cache the weather app starts with: the default search text, read
    /// as the location it names.
    pub fn with_default() -> (r: Self)
        ensures
            r@ == Map::<Seq<char>, LocationView>::empty().insert(DEFAULT_STR@, spec_get_parameters(DEFAULT_STR@)),
    {
        let mut r = LocationCache::new();
        let _ = r.resolve(DEFAULT_STR);
        r
    }

    /// Whether a search text is cached.
    pub fn contains(&self, text: &str) -> (r: bool)
        ensures
            r == self@.contains_key(text@),
    {
        proof {
            use_type_invariant(self);
            lemma_entries_map_lookup(self.entries@);
        }
        let target = String::from_str(text);
        let mut i: usize = 0;
        while i < self.entries.len()
            invariant
                i <= self.entries@.len(),
                target@ == text@,
                keys_unique(self.entries@),
                forall|j: int| 0 <= j < i ==> #[trigger] self.entries@[j].0@ != text@,
            decreases self.entries@.len() - i,
        {
            if self.entries[i].0 == target {
                proof {
                    lemma_entries_map_lookup(self.entries@);
                    assert(entries_map(self.entries@).contains_key(self.entries@[i as int].0@));
                }
                return true;
            }
            i += 1;
        }
        proof {
            lemma_entries_map_lookup(self.entries@);
            if entries_map(self.entries@).contains_key(text@) {
                let j = choose|j: int| 0 <= j < self.entries@.len() && self.entries@[j].0@ == text@;
            }
        }
        false
    }

    /// The location a search text stands for: the cached one where the text
    /// is cached; else the location the text names, which the cache then
    /// keeps for the text.
    pub fn resolve(&mut self, text: &str) -> (r: WeatherLocation)
        ensures
            old(self)@.contains_key(text@) ==> r@ == old(self)@[text@] && final(self)@ == old(self)@,
            !old(self)@.contains_key(text@) ==> r@ == spec_get_parameters(text@) && final(self)@ == old(
                self,
            )@.insert(text@, r@),
    {
        proof {
            use_type_invariant(&*self);
        }
        let mut entries: Vec<(String, WeatherLocation)> = Vec::new();
        std::mem::swap(&mut entries, &mut self.entries);
        let ghost start = entries@;
        proof {
            lemma_entries_map_lookup(start);
        }
        let target = String::from_str(text);
        let mut i: usize = 0;
        while i < entries.len()
            invariant
                i <= entries@.len(),
                target@ == text@,
                entries@ == start,
                keys_unique(start),
                old(self)@ == entries_map(start).map_values(|l: WeatherLocation| l@),
                forall|j: int| 0 <= j < i ==> #[trigger] start[j].0@ != text@,
            decreases entries@.len() - i,
        {
            if entries[i].0 == target {
                let r = copy_location(&entries[i].1);
                proof {
                    lemma_entries_map_lookup(start);
                    assert(entries_map(start).contains_key(start[i as int].0@));
                    assert(entries_map(start)[text@] == start[i as int].1);
                    assert(old(self)@[text@] == start[i as int].1@);
                }
                self.entries = entries;
                return r;
            }
            i += 1;
        }
        assert(!entries_map(start).contains_key(text@)) by {
            if entries_map(start).contains_key(text@) {
                let j = choose|j: int| 0 <= j < start.len() && start[j].0@ == text@;
            }
        }
        let loc = get_parameters(text);
        let r = copy_location(&loc);
        proof {
            lemma_entries_map_push(start, (target, loc));
            assert(entries_map(start.push((target, loc))).map_values(|l: WeatherLocation| l@) =~= entries_map(
                start,
            ).map_values(|l: WeatherLocation| l@).insert(text@, loc@));
        }
        entries.push((target, loc));
        self.entries = entries;
        r
    }
}

/// What a key pressed in the weather app's search box does: the typed text
/// is read through the cache (`resolve`); with Enter the app switches to the
/// location read, the draft is cleared and the text becomes the newest entry
/// of the search history (`Some` of the new history); with another key the
/// history stays (`None`).
pub fn search_step(text: &str, history: &Vec<String>, cache: &mut LocationCache, enter: bool) -> (r: (
    WeatherLocation,
    Option<Vec<String>>,
))
    ensures
        old(cache)@.contains_key(text@) ==> r.0@ == old(cache)@[text@] && final(cache)@ == old(cache)@,
        !old(cache)@.contains_key(text@) ==> r.0@ == spec_get_parameters(text@) && final(cache)@ == old(
            cache,
        )@.insert(text@, r.0@),
        r.1 is Some <==> enter,
        r.1 matches Some(h) ==> string_views(h@) == spec_push_search_history(string_views(history@), text@),
{
    let loc = cache.resolve(text);
    if enter {
        (loc, Some(push_search_history(history, text)))
    } else {
        (loc, None)
    }
}

/// What typing in the weather app's search box does before Enter: the text
/// is read through the cache (`resolve`), and the app switches to the
/// location read (`true`) only where weather is cached for it.
pub fn input_step(text: &str, cache: &mut LocationCache, cached: &Vec<WeatherLocation>) -> (r: (WeatherLocation, bool))
    ensures
        old(cache)@.contains_key(text@) ==> r.0@ == old(cache)@[text@] && final(cache)@ == old(cache)@,
        !old(cache)@.contains_key(text@) ==> r.0@ == spec_get_parameters(text@) && final(cache)@ == old(
            cache,
        )@.insert(text@, r.0@),
        r.1 == location_listed(cached@, r.0@),
{
    let loc = cache.resolve(text);
    let switch = listed(cached, &loc);
    (loc, switch)
}

/// What choosing an entry of the weather app's history selector does: the
/// entry is read through the cache (`resolve`); an entry that was not cached
/// yet also becomes the newest entry of the search history (`Some` of the new
/// history), else the history stays (`None`).
pub fn select_step(choice: &str, history: &Vec<String>, cache: &mut LocationCache) -> (r: (
    WeatherLocation,
    Option<Vec<String>>,
))
    ensures
        old(cache)@.contains_key(choice@) ==> r.0@ == old(cache)@[choice@] && final(cache)@ == old(cache)@,
        !old(cache)@.contains_key(choice@) ==> r.0@ == spec_get_parameters(choice@) && final(cache)@ == old(
            cache,
        )@.insert(choice@, r.0@),
        r.1 is Some <==> !old(cache)@.contains_key(choice@),
        r.1 matches Some(h) ==> string_views(h@) == spec_push_search_history(string_views(history@), choice@),
{
    let cached = cache.contains(choice);
    let loc = cache.resolve(choice);
    if !cached {
        (loc, Some(push_search_history(history, choice)))
    } else {
        (loc, None)
    }
}

/// Whether a location is among the cached ones, as `==` of locations tells.
pub open spec fn location_listed(cached: Seq<WeatherLocation>, loc: LocationView) -> bool {
    exists|i: int| 0 <= i < cached.len() && same_location(#[trigger] cached[i]@, loc)
}

fn listed(cached: &Vec<WeatherLocation>, loc: &WeatherLocation) -> (r: bool)
    ensures
        r == location_listed(cached@, loc@),
{
    let mut i: usize = 0;
    while i < cached.len()
        invariant
            i <= cached@.len(),
            forall|j: int| 0 <= j < i ==> !same_location(#[trigger] cached@[j]@, loc@),
        decreases cached@.len() - i,
    {
        if locations_equal(&cached[i], loc) {
            return true;
        }
        i += 1;
    }
    false
}

/// Whether the weather app asks for the weather at `loc`: exactly when no
/// entry is cached for it.
pub fn needs_fetch(cached: &Vec<WeatherLocation>, loc: &WeatherLocation) -> (r: bool)
    ensures
        r == !location_listed(cached@, loc@),
{
    !listed(cached, loc)
}

/// Whether the weather app takes an entry it received for `loc`: where none
/// is cached for it yet, or where nothing is cached at all.
pub fn accept_entry(cached: &Vec<WeatherLocation>, loc: &WeatherLocation) -> (r: bool)
    ensures
        r == (!location_listed(cached@, loc@) || cached@.len() == 0),
{
    !listed(cached, loc) || cached.len() == 0
}

/// The locations offered on the history page: those with more than a hundred
/// observations, in the order of the listing.
pub open spec fn spec_frequent_locations(counts: Seq<LocationCount>) -> Seq<Seq<char>>
    decreases counts.len(),
{
    if counts.len() == 0 {
        Seq::empty()
    } else {
        let rest = spec_frequent_locations(counts.drop_last());
        if counts.last().count > 100 {
            rest.push(counts.last().location@)
        } else {
            rest
        }
    }
}

/// The locations offered on the history page.
pub fn frequent_locations(counts: &Vec<LocationCount>) -> (r: Vec<String>)
    ensures
        string_views(r@) == spec_frequent_locations(counts@),
{
    let mut out: Vec<String> = Vec::new();
    let mut i: usize = 0;
    assert(counts@.take(0) =~= Seq::<LocationCount>::empty());
    while i < counts.len()
        invariant
            i <= counts@.len(),
            string_views(out@) == spec_frequent_locations(counts@.take(i as int)),
        decreases counts@.len() - i,
    {
        assert(counts@.take(i + 1).drop_last() =~= counts@.take(i as int));
        assert(counts@.take(i + 1).last() == counts@[i as int]);
        if counts[i].count > 100 {
            let c = counts[i].location.clone();
            let ghost prev = out@;
            out.push(c);
            assert(string_views(out@) =~= string_views(prev).push(c@));
        }
        i += 1;
    }
    assert(counts@.take(counts@.len() as int) =~= counts@);
    out
}

/// The options of the history page's location selector: the recorded
/// locations, once each, in the order of strings, without the one shown.
pub fn history_options(recorded: &Vec<String>, shown: &str) -> (r: Vec<String>)
    ensures
        sorted_strict(string_views(r@)),
        forall|y: Seq<char>| #[trigger] string_views(r@).contains(y) <==> (string_views(recorded@).contains(y)
            && y != shown@),
{
    let none: Vec<String> = Vec::new();
    let all = location_choices(recorded, &none);
    let ghost av = string_views(all@);
    assert(string_views(none@) =~= Seq::<Seq<char>>::empty());
    let target = String::from_str(shown);
    let mut out: Vec<String> = Vec::new();
    let mut i: usize = 0;
    while i < all.len()
        invariant
            i <= all@.len(),
            av == string_views(all@),
            target@ == shown@,
            sorted_strict(av),
            sorted_strict(string_views(out@)),
            forall|k: int| 0 <= k < out@.len() ==> #[trigger] in_prefix(av, i as int, string_views(out@)[k]),
            forall|y: Seq<char>| #[trigger] string_views(out@).contains(y) <==> in_prefix(av, i as int, y) && y != shown@,
        decreases all@.len() - i,
    {
        assert(av[i as int] == all@[i as int]@);
        let ghost prev = string_views(out@);
        if !(all[i] == target) {
            out.push(all[i].clone());
            let ghost now = string_views(out@);
            assert(now =~= prev.push(av[i as int]));
            assert forall|a: int, b: int| 0 <= a < b < now.len() implies str_lt(#[trigger] now[a], #[trigger] now[b]) by {
                if b < prev.len() {
                    assert(now[a] == prev[a] && now[b] == prev[b]);
                } else {
                    assert(now[a] == prev[a]);
                    assert(in_prefix(av, i as int, prev[a]));
                    let j = choose|j: int| 0 <= j < i && av[j] == prev[a];
                    assert(str_lt(av[j], av[i as int]));
                }
            }
            assert forall|k: int| 0 <= k < now.len() implies #[trigger] in_prefix(av, i + 1, now[k]) by {
                if k < prev.len() {
                    assert(now[k] == prev[k]);
                    assert(in_prefix(av, i as int, prev[k]));
                    let j = choose|j: int| 0 <= j < i && av[j] == prev[k];
                    assert(av[j] == now[k]);
                } else {
                    assert(av[i as int] == now[k]);
                }
            }
            assert forall|y: Seq<char>| #[trigger] now.contains(y) <==> in_prefix(av, i + 1, y) && y != shown@ by {
                if now.contains(y) {
                    let k = choose|k: int| 0 <= k < now.len() && now[k] == y;
                    if k < prev.len() {
                        assert(prev[k] == y);
                        assert(prev.contains(y));
                        let j = choose|j: int| 0 <= j < i && av[j] == y;
                        assert(av[j] == y);
                    } else {
                        assert(av[i as int] == y);
                    }
                }
                if in_prefix(av, i + 1, y) && y != shown@ {
                    let j = choose|j: int| 0 <= j < i + 1 && av[j] == y;
                    if j < i {
                        assert(in_prefix(av, i as int, y));
                        assert(prev.contains(y));
                        let k = choose|k: int| 0 <= k < prev.len() && prev[k] == y;
                        assert(now[k] == y);
                    } else {
                        assert(now[prev.len() as int] == y);
                    }
                }
            }
        } else {
            assert forall|y: Seq<char>| #[trigger] prev.contains(y) <==> in_prefix(av, i + 1, y) && y != shown@ by {
                if prev.contains(y) {
                    let j = choose|j: int| 0 <= j < i && av[j] == y;
                    assert(av[j] == y);
                }
                if in_prefix(av, i + 1, y) && y != shown@ {
                    let j = choose|j: int| 0 <= j < i + 1 && av[j] == y;
                    if j < i {
                        assert(in_prefix(av, i as int, y));
                    }
                }
            }
            assert forall|k: int| 0 <= k < prev.len() implies #[trigger] in_prefix(av, i + 1, prev[k]) by {
                assert(in_prefix(av, i as int, prev[k]));
                let j = choose|j: int| 0 <= j < i && av[j] == prev[k];
                assert(av[j] == prev[k]);
            }
        }
        i += 1;
    }
    assert forall|y: Seq<char>| #[trigger] string_views(out@).contains(y) <==> (string_views(recorded@).contains(y)
        && y != shown@) by {
        if in_prefix(av, i as int, y) {
            let j = choose|j: int| 0 <= j < i && av[j] == y;
            assert(av.contains(y));
        }
        if av.contains(y) {
            let j = choose|j: int| 0 <= j < av.len() && av[j] == y;
            assert(in_prefix(av, i as int, y));
        }
    }
    out
}

/// The query parameters of the history plot page: the location's name, then
/// the start and the end date where they are set.
pub open spec fn spec_history_plot_params(name: Seq<char>, start: Option<Seq<char>>, end: Option<Seq<char>>) -> Seq<(Seq<char>, Seq<char>)> {
    let with_name = seq![("name"@, name)];
    let with_start = match start {
        Some(d) => with_name.push(("start_time"@, d)),
        None => with_name,
    };
    match end {
        Some(d) => with_start.push(("end_time"@, d)),
        None => with_start,
    }
}

/// The history page's parameters: the location's name first; a
/// `start_time` pair exactly when a start date is given, carrying it,
/// whether or not an end date is given; an `end_time` pair exactly when an
/// end date is given, carrying it; nothing else.
pub proof fn lemma_history_plot_params(name: Seq<char>, start: Option<Seq<char>>, end: Option<Seq<char>>)
    ensures
        spec_history_plot_params(name, start, end).len() == 1 + (if start is Some { 1int } else { 0 }) + (
        if end is Some { 1int } else { 0 }),
        spec_history_plot_params(name, start, end)[0] == ("name"@, name),
        start matches Some(d) ==> spec_history_plot_params(name, start, end).contains(("start_time"@, d)),
        start is None ==> forall|i: int|
            0 <= i < spec_history_plot_params(name, start, end).len() ==> #[trigger] spec_history_plot_params(
                name,
                start,
                end,
            )[i].0 != "start_time"@,
        end matches Some(d) ==> spec_history_plot_params(name, start, end).contains(("end_time"@, d)),
        end is None ==> forall|i: int|
            0 <= i < spec_history_plot_params(name, start, end).len() ==> #[trigger] spec_history_plot_params(
                name,
                start,
                end,
            )[i].0 != "end_time"@,
{
    reveal_strlit("name");
    reveal_strlit("start_time");
    reveal_strlit("end_time");
    let p = spec_history_plot_params(name, start, end);
    if let Some(d) = start {
        assert(p[1] == ("start_time"@, d));
    }
    if let Some(d) = end {
        assert(p[p.len() - 1] == ("end_time"@, d));
    }
    assert("name"@.len() != "start_time"@.len());
    assert("name"@.len() != "end_time"@.len());
    assert("end_time"@.len() != "start_time"@.len());
}

/// The query parameters of the history plot page.
pub fn history_plot_params(name: &str, start: Option<String>, end: Option<String>) -> (r: Vec<(String, String)>)
    ensures
        r@.map_values(|p: (String, String)| (p.0@, p.1@)) == spec_history_plot_params(
            name@,
            match start {
                Some(d) => Some(d@),
                None => None,
            },
            match end {
                Some(d) => Some(d@),
                None => None,
            },
        ),
{
    let mut r: Vec<(String, String)> = Vec::new();
    r.push((String::from_str("name"), String::from_str(name)));
    if let Some(d) = start {
        r.push((String::from_str("start_time"), d));
    }
    if let Some(d) = end {
        r.push((String::from_str("end_time"), d));
    }
    assert(r@.map_values(|p: (String, String)| (p.0@, p.1@)) =~= spec_history_plot_params(
        name@,
        match start {
            Some(d) => Some(d@),
            None => None,
        },
        match end {
            Some(d) => Some(d@),
            None => None,
        },
    ));
    r
}

/// A string option by its characters.
pub open spec fn opt_view(o: Option<String>) -> Option<Seq<char>> {
    match o {
        Some(s) => Some(s@),
        None => None,
    }
}

/// Pairs of strings by their characters.
pub open spec fn pairs_view(v: Seq<(String, String)>) -> Seq<(Seq<char>, Seq<char>)> {
    v.map_values(|p: (String, String)| (p.0@, p.1@))
}

/// What `Url::parse` of the url crate makes of a text, written back as text
/// (`None` where it fails).
pub uninterp spec fn url_parse(s: Seq<char>) -> Option<Seq<char>>;

/// What `Url::parse_with_params` of the url crate makes of a text and query
/// parameters, written back as text (`None` where the text fails to parse).
pub uninterp spec fn url_parse_with_params(s: Seq<char>, params: Seq<(Seq<char>, Seq<char>)>) -> Option<Seq<char>>;

/// What `WeatherLocation::get_options` of weather_util_rust gives for a
/// location: the query parameters that name it.
pub uninterp spec fn util_location_options(l: LocationView) -> Seq<(Seq<char>, Seq<char>)>;

/// Trusted: `Url::parse` of the url crate, the result written back with its
/// `String` conversion; the result depends on the text alone.
#[verifier::external_body]
fn parse_url(input: &str) -> (r: Option<String>)
    ensures
        opt_view(r) == url_parse(input@),
{
    match Url::parse(input) {
        Ok(u) => Some(u.into()),
        Err(_) => None,
    }
}

/// Trusted: `Url::parse_with_params` of the url crate, which parses the text
/// and appends the pairs, form-encoded, to its query; the result written back
/// with its `String` conversion depends on the text and the pairs alone.
#[verifier::external_body]
fn parse_url_with_params(input: &str, params: &Vec<(String, String)>) -> (r: Option<String>)
    ensures
        opt_view(r) == url_parse_with_params(input@, pairs_view(params@)),
{
    match Url::parse_with_params(input, params.iter()) {
        Ok(u) => Some(u.into()),
        Err(_) => None,
    }
}

/// Trusted: `WeatherLocation::get_options` of weather_util_rust, called on the
/// same location in that crate's type; each pair written back as two strings.
/// The result depends on the location alone.
#[verifier::external_body]
fn location_options(l: &WeatherLocation) -> (r: Vec<(String, String)>)
    ensures
        pairs_view(r@) == util_location_options(l@),
{
    let util = match l {
        WeatherLocation::ZipCode { zipcode, country_code } => UtilLocation::ZipCode {
            zipcode: *zipcode,
            country_code: *country_code,
        },
        WeatherLocation::CityName(name) => UtilLocation::CityName(name.as_str().into()),
        WeatherLocation::LatLon { latitude, longitude } => UtilLocation::LatLon {
            latitude: *latitude,
            longitude: *longitude,
        },
    };
    util.get_options().into_iter().map(|(k, v)| (k.to_string(), v.to_string())).collect()
}

/// The address of a page before parsing: `https://`, the host, `/`, the
/// page's path.
pub open spec fn page_base(host: Seq<char>, page: WeatherPage) -> Seq<char> {
    "https://"@ + host + "/"@ + page_path(page)
}

/// The url the front end shows a page at, `base` being the parsed page
/// address: the text and plot pages carry the parameters that name the
/// location; the history page carries the history location and the dates
/// that are set; the wasm page carries none. Where adding the parameters
/// fails, the parsed address stays.
pub open spec fn spec_page_url(
    base: Seq<char>,
    page: WeatherPage,
    location: LocationView,
    history_location: Seq<char>,
    start: Option<Seq<char>>,
    end: Option<Seq<char>>,
) -> Seq<char> {
    let params = match page {
        WeatherPage::Index => Some(util_location_options(location)),
        WeatherPage::Plot => Some(util_location_options(location)),
        WeatherPage::HistoryPlot => Some(spec_history_plot_params(history_location, start, end)),
        WeatherPage::Wasm => None,
    };
    match params {
        Some(p) => match url_parse_with_params(base, p) {
            Some(u) => u,
            None => base,
        },
        None => base,
    }
}

/// The url the front end shows a page at, for a host whose page address
/// parses.
pub fn page_url(
    host: &str,
    page: WeatherPage,
    location: &WeatherLocation,
    history_location: &str,
    start: Option<String>,
    end: Option<String>,
) -> (r: String)
    requires
        url_parse(page_base(host@, page)) is Some,
    ensures
        r@ == spec_page_url(
            url_parse(page_base(host@, page))->0,
            page,
            location@,
            history_location@,
            opt_view(start),
            opt_view(end),
        ),
{
    let address = String::from_str("https://").concat(host).concat("/").concat(page.to_str());
    let parsed = parse_url(address.as_str());
    let base = match parsed {
        Some(b) => b,
        None => {
            return String::new();
        },
    };
    let params = match page {
        WeatherPage::Index => Some(location_options(location)),
        WeatherPage::Plot => Some(location_options(location)),
        WeatherPage::HistoryPlot => Some(history_plot_params(history_location, start, end)),
        WeatherPage::Wasm => None,
    };
    match params {
        Some(p) => match parse_url_with_params(base.as_str(), &p) {
            Some(u) => u,
            None => base,
        },
        None => base,
    }
}

/// The url the front end shows a page at; `None` where the page address made
/// of the host does not parse.
pub fn checked_page_url(
    host: &str,
    page: WeatherPage,
    location: &WeatherLocation,
    history_location: &str,
    start: Option<String>,
    end: Option<String>,
) -> (r: Option<String>)
    ensures
        r is None <==> url_parse(page_base(host@, page)) is None,
        r matches Some(u) ==> u@ == spec_page_url(
            url_parse(page_base(host@, page))->0,
            page,
            location@,
            history_location@,
            opt_view(start),
            opt_view(end),
        ),
{
    let address = String::from_str("https://").concat(host).concat("/").concat(page.to_str());
    if parse_url(address.as_str()).is_none() {
        return None;
    }
    Some(page_url(host, page, location, history_location, start, end))
}

} // verus!
