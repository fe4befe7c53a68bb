use vstd::prelude::*;
use isocountry::CountryCode;
use std::collections::HashMap;

use crate::decimal::{int_error_text, parse_u64, spec_parse_u64};
use crate::errors::ServiceError;
use crate::location::{country_code_for_alpha2, country_for_alpha2};
use crate::text::{split_char, split_on_char, string_views};

verus! {

/// Cache statistics of the service.
pub struct StatisticsObject {
    /// Weather data cache hits
    pub data_cache_hits: u64,
    /// Weather data cache misses
    pub data_cache_misses: u64,
    /// Forecast cache hits
    pub forecast_cache_hits: u64,
    /// Forecast cache misses
    pub forecast_cache_misses: u64,
    /// Longest page body served, per page
    pub weather_string_length_map: HashMap<String, usize>,
}

/// A location and how many observations were recorded for it.
#[derive(Debug, Clone, PartialEq, Eq)]
pub struct LocationCount {
    /// Location string
    pub location: String,
    /// Count
    pub count: i64,
}

/// The window of a paginated listing.
#[derive(Debug, Clone, Copy, PartialEq, Eq, Structural)]
pub struct Pagination {
    /// Number of entries returned
    pub limit: usize,
    /// Number of entries to skip
    pub offset: usize,
    /// Total number of entries
    pub total: usize,
}

/// The description of the service's api.
pub struct ApiDoc;

impl Pagination {
    /// The window a listing request asks for: skip `offset` entries (none
    /// where not given) and return at most `limit` (ten where not given).
    pub fn from_request(offset: Option<usize>, limit: Option<usize>, total: usize) -> (r: Self)
        ensures
            r.offset == (match offset {
                Some(o) => o,
                None => 0,
            }),
            r.limit == (match limit {
                Some(l) => l,
                None => 10,
            }),
            r.total == total,
    {
        let offset = match offset {
            Some(o) => o,
            None => 0,
        };
        let limit = match limit {
            Some(l) => l,
            None => 10,
        };
        Pagination { limit, offset, total }
    }
}

/// How a zip lookup text `zip` or `zip,CC` is read: the first piece must be
/// an unsigned integer; a second piece that is a two-letter country code
/// restricts the country, anything else there is ignored.
pub open spec fn spec_parse_zip_country(s: Seq<char>) -> Result<(u64, Option<CountryCode>), Seq<char>> {
    let parts = split_char(s, ',');
    match spec_parse_u64(parts[0]) {
        Ok(zip) => Ok(
            (zip, if parts.len() >= 2 {
                country_for_alpha2(parts[1])
            } else {
                None
            }),
        ),
        Err(k) => Err("ParseIntError "@ + int_error_text(k)),
    }
}

/// Reads a zip lookup text.
pub fn parse_zip_country(zip: &str) -> (r: Result<(u64, Option<CountryCode>), ServiceError>)
    ensures
        match r {
            Ok(v) => spec_parse_zip_country(zip@) == Ok::<(u64, Option<CountryCode>), Seq<char>>(v),
            Err(e) => spec_parse_zip_country(zip@) is Err && (e matches ServiceError::ParseIntError(m)
                && "ParseIntError "@ + m@ == spec_parse_zip_country(zip@)->Err_0),
        },
{
    let parts = split_on_char(zip, ',');
    proof {
        crate::text::lemma_split_len_contains(zip@, ',');
        assert(string_views(parts@)[0] == parts@[0]@);
    }
    match parse_u64(parts[0].as_str()) {
        Ok(z) => {
            let cc = if parts.len() >= 2 {
                assert(string_views(parts@)[1] == parts@[1]@);
                country_code_for_alpha2(parts[1].as_str())
            } else {
                None
            };
            Ok((z, cc))
        },
        Err(k) => Err(ServiceError::ParseIntError(k.message())),
    }
}

/// The number of rows a batch of inserts wrote.
pub open spec fn sum_counts(counts: Seq<u64>) -> nat
    decreases counts.len(),
{
    if counts.len() == 0 {
        0
    } else {
        sum_counts(counts.drop_last()) + (counts.last() as nat)
    }
}

proof fn lemma_sum_counts_prefix(counts: Seq<u64>, i: int)
    requires
        0 <= i <= counts.len(),
    ensures
        sum_counts(counts.take(i)) <= sum_counts(counts),
    decreases counts.len() - i,
{
    if i < counts.len() {
        lemma_sum_counts_prefix(counts, i + 1);
        assert(counts.take(i + 1).drop_last() =~= counts.take(i));
    } else {
        assert(counts.take(i) =~= counts);
    }
}

/// The total of the rows each insert of a batch wrote.
pub fn total_inserted(counts: &Vec<u64>) -> (r: u64)
    requires
        sum_counts(counts@) <= u64::MAX,
    ensures
        r == sum_counts(counts@),
{
    let mut total: u64 = 0;
    let mut i: usize = 0;
    while i < counts.len()
        invariant
            i <= counts@.len(),
            sum_counts(counts@) <= u64::MAX,
            total == sum_counts(counts@.take(i as int)),
        decreases counts@.len() - i,
    {
        proof {
            lemma_sum_counts_prefix(counts@, i + 1);
            assert(counts@.take(i + 1).drop_last() =~= counts@.take(i as int));
        }
        total = total + counts[i];
        i += 1;
    }
    assert(counts@.take(counts@.len() as int) =~= counts@);
    total
}

/// The longest body length recorded for each page.
pub struct StringLengthMap {
    entries: Vec<(String, usize)>,
}

/// The map that a list of (key, value) entries stands for; a later entry
/// wins over an earlier one with the same key.
pub open spec fn entries_map<V>(e: Seq<(String, V)>) -> Map<Seq<char>, V>
    decreases e.len(),
{
    if e.len() == 0 {
        Map::empty()
    } else {
        entries_map(e.drop_last()).insert(e.last().0@, e.last().1)
    }
}

/// No key occurs twice.
pub open spec fn keys_unique<V>(e: Seq<(String, V)>) -> bool {
    forall|i: int, j: int| 0 <= i < e.len() && 0 <= j < e.len() && i != j ==> e[i].0@ != e[j].0@
}

pub(crate) proof fn lemma_entries_map_lookup<V>(e: Seq<(String, V)>)
    requires
        keys_unique(e),
    ensures
        forall|i: int| 0 <= i < e.len() ==> #[trigger] entries_map(e).contains_key(e[i].0@)
            && entries_map(e)[e[i].0@] == e[i].1,
        forall|k: Seq<char>| #[trigger] entries_map(e).contains_key(k) ==> exists|i: int| 0 <= i < e.len() && e[i].0@ == k,
    decreases e.len(),
{
    if e.len() > 0 {
        let init = e.drop_last();
        assert(keys_unique(init)) by {
            assert forall|i: int, j: int| 0 <= i < init.len() && 0 <= j < init.len() && i != j implies init[i].0@ != init[j].0@ by {
                assert(init[i] == e[i] && init[j] == e[j]);
            }
        }
        lemma_entries_map_lookup(init);
        assert forall|i: int| 0 <= i < e.len() implies #[trigger] entries_map(e).contains_key(e[i].0@)
            && entries_map(e)[e[i].0@] == e[i].1 by {
            if i < e.len() - 1 {
                assert(init[i] == e[i]);
                assert(entries_map(init).contains_key(init[i].0@));
                assert(e[i].0@ != e[e.len() - 1].0@);
            }
        }
        assert forall|k: Seq<char>| #[trigger] entries_map(e).contains_key(k) implies exists|i: int| 0 <= i < e.len() && e[i].0@ == k by {
            if k != e.last().0@ {
                assert(entries_map(init).contains_key(k));
                let i = choose|i: int| 0 <= i < init.len() && init[i].0@ == k;
                assert(e[i] == init[i]);
            } else {
                assert(e[e.len() - 1].0@ == k);
            }
        }
    }
}

pub(crate) proof fn lemma_entries_map_update<V>(e: Seq<(String, V)>, i: int, entry: (String, V))
    requires
        keys_unique(e),
        0 <= i < e.len(),
        entry.0@ == e[i].0@,
    ensures
        keys_unique(e.update(i, entry)),
        entries_map(e.update(i, entry)) == entries_map(e).insert(entry.0@, entry.1),
    decreases e.len(),
{
    let u = e.update(i, entry);
    assert(keys_unique(u)) by {
        assert forall|a: int, b: int| 0 <= a < u.len() && 0 <= b < u.len() && a != b implies u[a].0@ != u[b].0@ by {
            assert(u[a].0@ == e[a].0@ && u[b].0@ == e[b].0@);
        }
    }
    let init = e.drop_last();
    assert(keys_unique(init)) by {
        assert forall|a: int, b: int| 0 <= a < init.len() && 0 <= b < init.len() && a != b implies init[a].0@ != init[b].0@ by {
            assert(init[a] == e[a] && init[b] == e[b]);
        }
    }
    if i == e.len() - 1 {
        assert(u.drop_last() =~= init);
        lemma_entries_map_lookup(init);
        assert forall|k: Seq<char>| #[trigger] entries_map(init).contains_key(k) implies k != entry.0@ by {
            let j = choose|j: int| 0 <= j < init.len() && init[j].0@ == k;
            assert(e[j] == init[j]);
        }
        assert(entries_map(u) =~= entries_map(e).insert(entry.0@, entry.1));
    } else {
        lemma_entries_map_update(init, i, entry);
        assert(u.drop_last() =~= init.update(i, entry));
        assert(u.last() == e.last());
        assert(e.last().0@ != entry.0@) by {
            assert(e[e.len() - 1].0@ != e[i].0@);
        }
        assert(entries_map(u) =~= entries_map(e).insert(entry.0@, entry.1));
    }
}

pub(crate) proof fn lemma_entries_map_push<V>(e: Seq<(String, V)>, entry: (String, V))
    requires
        keys_unique(e),
        !entries_map(e).contains_key(entry.0@),
    ensures
        keys_unique(e.push(entry)),
        entries_map(e.push(entry)) == entries_map(e).insert(entry.0@, entry.1),
{
    lemma_entries_map_lookup(e);
    let p = e.push(entry);
    assert(p.drop_last() =~= e);
    assert forall|a: int, b: int| 0 <= a < p.len() && 0 <= b < p.len() && a != b implies p[a].0@ != p[b].0@ by {
        if a < e.len() && b < e.len() {
            assert(p[a] == e[a] && p[b] == e[b]);
        } else if a == e.len() {
            assert(p[b] == e[b]);
            assert(entries_map(e).contains_key(e[b].0@));
        } else {
            assert(p[a] == e[a]);
            assert(entries_map(e).contains_key(e[a].0@));
        }
    }
}

/// The longest length recorded for `key`, zero where none is.
pub open spec fn recorded_length(m: Map<Seq<char>, usize>, key: Seq<char>) -> usize {
    if m.contains_key(key) {
        m[key]
    } else {
        0
    }
}

/// The lengths after recording a body of `length` characters for `key`.
pub open spec fn spec_record_length(m: Map<Seq<char>, usize>, key: Seq<char>, length: usize) -> Map<Seq<char>, usize> {
    if length > recorded_length(m, key) {
        m.insert(key, length)
    } else {
        m
    }
}

/// Recording keeps, for each page, the longest body seen: the recorded
/// length of `key` becomes the larger of the old one and `length`, and every
/// other key keeps its own.
pub proof fn lemma_record_length_is_max(m: Map<Seq<char>, usize>, key: Seq<char>, length: usize, other: Seq<char>)
    ensures
        recorded_length(spec_record_length(m, key, length), key) == if length > recorded_length(m, key) {
            length
        } else {
            recorded_length(m, key)
        },
        other != key ==> recorded_length(spec_record_length(m, key, length), other) == recorded_length(m, other),
{
}

impl View for StringLengthMap {
    type V = Map<Seq<char>, usize>;

    closed spec fn view(&self) -> Map<Seq<char>, usize> {
        entries_map(self.entries@)
    }
}

impl StringLengthMap {
    /// The map's internal invariant: no key occurs twice.
    #[verifier::type_invariant]
    closed spec fn well_formed(&self) -> bool {
        keys_unique(self.entries@)
    }

    /// An empty map.
    pub fn new() -> (r: Self)
        ensures
            r@ == Map::<Seq<char>, usize>::empty(),
    {
        let r = StringLengthMap { entries: Vec::new() };
        assert(r@ =~= Map::<Seq<char>, usize>::empty());
        r
    }

    /// Records a body of `length` characters served for `key`: the recorded
    /// length becomes `length` where that is more than the one recorded.
    pub fn insert_lenth(&mut self, key: &str, length: usize)
        ensures
            final(self)@ == spec_record_length(old(self)@, key@, length),
    {
        proof {
            use_type_invariant(&*self);
        }
        let mut entries: Vec<(String, usize)> = Vec::new();
        std::mem::swap(&mut entries, &mut self.entries);
        let ghost start = entries@;
        assert(entries_map(start) == old(self)@);
        let target = String::from_str(key);
        let mut i: usize = 0;
        let mut found: bool = false;
        while i < entries.len()
            invariant_except_break
                !found,
            invariant
                i <= entries@.len(),
                target@ == key@,
                entries@ == start,
                keys_unique(start),
                forall|j: int| 0 <= j < i ==> #[trigger] start[j].0@ != key@,
            ensures
                found ==> i < entries@.len() && entries@[i as int].0@ == key@,
                !found ==> forall|j: int| 0 <= j < start.len() ==> #[trigger] start[j].0@ != key@,
            decreases entries@.len() - i,
        {
            if entries[i].0 == target {
                found = true;
                break;
            }
            i += 1;
        }
        if found {
            let current = entries[i].1;
            proof {
                lemma_entries_map_lookup(start);
                assert(entries_map(start).contains_key(start[i as int].0@));
            }
            assert(entries_map(start)[key@] == current);
            if length > current {
                proof {
                    lemma_entries_map_update(start, i as int, (target, length));
                }
                entries.set(i, (target, length));
            }
        } else {
            assert(!entries_map(start).contains_key(key@)) by {
                lemma_entries_map_lookup(start);
                if entries_map(start).contains_key(key@) {
                    let j = choose|j: int| 0 <= j < start.len() && start[j].0@ == key@;
                }
            }
            if length > 0 {
                proof {
                    lemma_entries_map_push(start, (target, length));
                }
                entries.push((target, length));
            }
        }
        self.entries = entries;
    }

    /// The recorded lengths, one entry per key.
    pub fn get_map(&self) -> (r: Vec<(String, usize)>)
        ensures
            keys_unique(r@),
            entries_map(r@) == self@,
    {
        proof {
            use_type_invariant(self);
        }
        let mut out: Vec<(String, usize)> = Vec::new();
        let mut i: usize = 0;
        while i < self.entries.len()
            invariant
                i <= self.entries@.len(),
                keys_unique(self.entries@),
                out@.len() == i,
                forall|j: int| 0 <= j < i ==> #[trigger] out@[j].0@ == self.entries@[j].0@ && out@[j].1 == self.entries@[j].1,
            decreases self.entries@.len() - i,
        {
            let (k, v) = &self.entries[i];
            out.push((k.clone(), *v));
            i += 1;
        }
        proof {
            lemma_same_entries(out@, self.entries@);
        }
        out
    }
}

proof fn lemma_same_entries(a: Seq<(String, usize)>, b: Seq<(String, usize)>)
    requires
        a.len() == b.len(),
        forall|j: int| 0 <= j < a.len() ==> #[trigger] a[j].0@ == b[j].0@ && a[j].1 == b[j].1,
        keys_unique(b),
    ensures
        keys_unique(a),
        entries_map(a) == entries_map(b),
    decreases a.len(),
{
    assert forall|i: int, j: int| 0 <= i < a.len() && 0 <= j < a.len() && i != j implies a[i].0@ != a[j].0@ by {
        assert(a[i].0@ == b[i].0@ && a[j].0@ == b[j].0@);
    }
    if a.len() > 0 {
        let bi = b.drop_last();
        assert(keys_unique(bi)) by {
            assert forall|x: int, y: int| 0 <= x < bi.len() && 0 <= y < bi.len() && x != y implies bi[x].0@ != bi[y].0@ by {
                assert(bi[x] == b[x] && bi[y] == b[y]);
            }
        }
        assert forall|j: int| 0 <= j < a.drop_last().len() implies #[trigger] a.drop_last()[j].0@ == bi[j].0@
            && a.drop_last()[j].1 == bi[j].1 by {
            assert(a.drop_last()[j] == a[j] && bi[j] == b[j]);
        }
        lemma_same_entries(a.drop_last(), bi);
        assert(a.last().0@ == b.last().0@ && a.last().1 == b.last().1) by {
            assert(a[a.len() - 1].0@ == b[b.len() - 1].0@);
        }
    }
}

} // verus!
