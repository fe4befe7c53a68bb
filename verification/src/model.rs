use vstd::prelude::*;

use crate::decimal::{decimal, u64_to_decimal, zero_pad};
use crate::text::{join, join_strings, string_views};

verus! {

/// One weather condition as reported: its short name and its description.
#[derive(Debug, Clone, PartialEq, Eq)]
pub struct WeatherCondition {
    pub main: String,
    pub description: String,
}

/// One condition as written in the condition column.
pub open spec fn condition_piece(c: WeatherCondition) -> Seq<char> {
    c.main@ + " "@ + c.description@ + " "@
}

/// The condition column of a stored observation: each condition written as
/// `main`, a space, `description`, a space; the conditions joined by `, `.
pub open spec fn spec_condition_text(conds: Seq<WeatherCondition>) -> Seq<char> {
    join(Seq::new(conds.len(), |i: int| condition_piece(conds[i])), ", "@)
}

/// The condition column of a stored observation.
pub fn condition_text(conds: &Vec<WeatherCondition>) -> (r: String)
    ensures
        r@ == spec_condition_text(conds@),
{
    let mut parts: Vec<String> = Vec::new();
    let mut i: usize = 0;
    while i < conds.len()
        invariant
            i <= conds@.len(),
            parts@.len() == i,
            forall|j: int| 0 <= j < i ==> #[trigger] parts@[j]@ == condition_piece(conds@[j]),
        decreases conds@.len() - i,
    {
        let c = &conds[i];
        let piece = c.main.clone().concat(" ").concat(c.description.as_str()).concat(" ");
        parts.push(piece);
        i += 1;
    }
    assert(string_views(parts@) =~= Seq::new(conds@.len(), |i: int| condition_piece(conds@[i])));
    join_strings(&parts, ", ")
}

/// The filters of a history query, in the order they are applied: by
/// location name, by server, from a start date, up to an end date.
pub open spec fn name_dates_constraints(has_name: bool, has_server: bool, has_start: bool, has_end: bool) -> Seq<
    Seq<char>,
> {
    let a = if has_name { seq!["location_name = $name"@] } else { Seq::empty() };
    let b = if has_server { a.push("server = $server"@) } else { a };
    let c = if has_start { b.push("created_at >= $start_date"@) } else { b };
    if has_end { c.push("created_at <= $end_date"@) } else { c }
}

/// The history query: every stored observation that passes the filters
/// given, oldest first.
pub open spec fn spec_name_dates_query(has_name: bool, has_server: bool, has_start: bool, has_end: bool) -> Seq<char> {
    let cs = name_dates_constraints(has_name, has_server, has_start, has_end);
    let where_str = if cs.len() == 0 { Seq::<char>::empty() } else { "WHERE "@ + join(cs, " AND "@) };
    "\n                SELECT * FROM weather_data\n                "@ + where_str
        + "\n                ORDER BY created_at\n            "@
}

/// Whether `p` occurs in `s` as a run of consecutive characters.
pub open spec fn has_infix(s: Seq<char>, p: Seq<char>) -> bool {
    exists|i: int| 0 <= i && i + p.len() <= s.len() && #[trigger] s.subrange(i, i + p.len()) == p
}

proof fn lemma_infix_self(p: Seq<char>)
    ensures
        has_infix(p, p),
{
    assert(p.subrange(0, 0int + p.len()) =~= p);
}

proof fn lemma_infix_concat(a: Seq<char>, b: Seq<char>, c: Seq<char>, p: Seq<char>)
    requires
        has_infix(b, p),
    ensures
        has_infix(a + b + c, p),
{
    let i = choose|i: int| 0 <= i && i + p.len() <= b.len() && #[trigger] b.subrange(i, i + p.len()) == p;
    let j = a.len() + i;
    assert((a + b + c).subrange(j, j + p.len()) =~= b.subrange(i, i + p.len()));
}

proof fn lemma_infix_char(s: Seq<char>, p: Seq<char>, c: char)
    requires
        has_infix(s, p),
        p.contains(c),
    ensures
        s.contains(c),
{
    let i = choose|i: int| 0 <= i && i + p.len() <= s.len() && #[trigger] s.subrange(i, i + p.len()) == p;
    let j = choose|j: int| 0 <= j < p.len() && p[j] == c;
    assert(s.subrange(i, i + p.len())[j] == s[i + j]);
}

proof fn lemma_concat_lacks(a: Seq<char>, b: Seq<char>, c: char)
    requires
        !a.contains(c),
        !b.contains(c),
    ensures
        !(a + b).contains(c),
{
    if (a + b).contains(c) {
        let i = choose|i: int| 0 <= i < (a + b).len() && (a + b)[i] == c;
        if i < a.len() {
            assert(a[i] == c);
        } else {
            assert(b[i - a.len()] == c);
        }
    }
}

proof fn lemma_join_infix(cs: Seq<Seq<char>>, sep: Seq<char>, k: int)
    requires
        0 <= k < cs.len(),
    ensures
        has_infix(join(cs, sep), cs[k]),
    decreases cs.len(),
{
    if cs.len() == 1 {
        lemma_infix_self(cs[0]);
    } else if k == cs.len() - 1 {
        lemma_infix_self(cs.last());
        lemma_infix_concat(join(cs.drop_last(), sep) + sep, cs.last(), Seq::empty(), cs.last());
        assert(join(cs.drop_last(), sep) + sep + cs.last() + Seq::<char>::empty() =~= join(cs, sep));
    } else {
        lemma_join_infix(cs.drop_last(), sep, k);
        assert(cs.drop_last()[k] == cs[k]);
        lemma_infix_concat(Seq::empty(), join(cs.drop_last(), sep), sep + cs.last(), cs[k]);
        assert(Seq::<char>::empty() + join(cs.drop_last(), sep) + (sep + cs.last()) =~= join(cs, sep));
    }
}

proof fn lemma_join_lacks(cs: Seq<Seq<char>>, sep: Seq<char>, c: char)
    requires
        !sep.contains(c),
        forall|i: int| 0 <= i < cs.len() ==> !(#[trigger] cs[i]).contains(c),
    ensures
        !join(cs, sep).contains(c),
    decreases cs.len(),
{
    if cs.len() == 1 {
        assert(!cs[0].contains(c));
    } else if cs.len() > 1 {
        let init = cs.drop_last();
        assert forall|i: int| 0 <= i < init.len() implies !(#[trigger] init[i]).contains(c) by {
            assert(init[i] == cs[i]);
        }
        lemma_join_lacks(init, sep, c);
        assert(!cs[cs.len() - 1].contains(c));
        lemma_concat_lacks(join(init, sep), sep, c);
        lemma_concat_lacks(join(init, sep) + sep, cs.last(), c);
    }
}

proof fn lemma_query_literals()
    ensures
        !"\n                SELECT * FROM weather_data\n                "@.contains('l'),
        !"\n                SELECT * FROM weather_data\n                "@.contains('v'),
        !"\n                SELECT * FROM weather_data\n                "@.contains('>'),
        !"\n                SELECT * FROM weather_data\n                "@.contains('<'),
        !"\n                ORDER BY created_at\n            "@.contains('l'),
        !"\n                ORDER BY created_at\n            "@.contains('v'),
        !"\n                ORDER BY created_at\n            "@.contains('>'),
        !"\n                ORDER BY created_at\n            "@.contains('<'),
        !"WHERE "@.contains('l'),
        !"WHERE "@.contains('v'),
        !"WHERE "@.contains('>'),
        !"WHERE "@.contains('<'),
        !" AND "@.contains('l'),
        !" AND "@.contains('v'),
        !" AND "@.contains('>'),
        !" AND "@.contains('<'),
        "location_name = $name"@.contains('l'),
        !"location_name = $name"@.contains('v'),
        !"location_name = $name"@.contains('>'),
        !"location_name = $name"@.contains('<'),
        !"server = $server"@.contains('l'),
        "server = $server"@.contains('v'),
        !"server = $server"@.contains('>'),
        !"server = $server"@.contains('<'),
        !"created_at >= $start_date"@.contains('l'),
        !"created_at >= $start_date"@.contains('v'),
        "created_at >= $start_date"@.contains('>'),
        !"created_at >= $start_date"@.contains('<'),
        !"created_at <= $end_date"@.contains('l'),
        !"created_at <= $end_date"@.contains('v'),
        !"created_at <= $end_date"@.contains('>'),
        "created_at <= $end_date"@.contains('<'),
{
    reveal_strlit("\n                SELECT * FROM weather_data\n                ");
    reveal_strlit("\n                ORDER BY created_at\n            ");
    reveal_strlit("WHERE ");
    reveal_strlit(" AND ");
    reveal_strlit("location_name = $name");
    reveal_strlit("server = $server");
    reveal_strlit("created_at >= $start_date");
    reveal_strlit("created_at <= $end_date");
    assert("location_name = $name"@[0] == 'l');
    assert("server = $server"@[3] == 'v');
    assert("created_at >= $start_date"@[11] == '>');
    assert("created_at <= $end_date"@[11] == '<');
}

/// Each filter of the history query appears in it exactly when its argument
/// is given, whatever other filters are given: `location_name = $name` with a
/// name, `server = $server` with a server, `created_at >= $start_date` with a
/// start date, `created_at <= $end_date` with an end date.
pub proof fn lemma_name_dates_filters(has_name: bool, has_server: bool, has_start: bool, has_end: bool)
    ensures
        has_infix(spec_name_dates_query(has_name, has_server, has_start, has_end), "location_name = $name"@) <==> has_name,
        has_infix(spec_name_dates_query(has_name, has_server, has_start, has_end), "server = $server"@) <==> has_server,
        has_infix(spec_name_dates_query(has_name, has_server, has_start, has_end), "created_at >= $start_date"@)
            <==> has_start,
        has_infix(spec_name_dates_query(has_name, has_server, has_start, has_end), "created_at <= $end_date"@)
            <==> has_end,
{
    lemma_query_literals();
    let n = "location_name = $name"@;
    let v = "server = $server"@;
    let t = "created_at >= $start_date"@;
    let e = "created_at <= $end_date"@;
    let cs = name_dates_constraints(has_name, has_server, has_start, has_end);
    let sep = " AND "@;
    let j = join(cs, sep);
    let where_str = if cs.len() == 0 { Seq::<char>::empty() } else { "WHERE "@ + j };
    let pre = "\n                SELECT * FROM weather_data\n                "@;
    let suf = "\n                ORDER BY created_at\n            "@;
    let q = spec_name_dates_query(has_name, has_server, has_start, has_end);
    assert(q == pre + where_str + suf);
    let kn: int = 0;
    let kv: int = if has_name { 1 } else { 0 };
    let kt: int = kv + if has_server { 1int } else { 0 };
    let ke: int = kt + if has_start { 1int } else { 0 };
    assert(cs.len() == ke + if has_end { 1int } else { 0 });
    assert(has_name ==> cs[kn] == n);
    assert(has_server ==> cs[kv] == v);
    assert(has_start ==> cs[kt] == t);
    assert(has_end ==> cs[ke] == e);
    assert forall|i: int| 0 <= i < cs.len() implies (#[trigger] cs[i] == n && has_name) || (cs[i] == v && has_server) || (
    cs[i] == t && has_start) || (cs[i] == e && has_end) by {
    }
    // a filter that is given occurs in the query
    assert forall|k: int| 0 <= k < cs.len() implies #[trigger] has_infix(q, cs[k]) by {
        lemma_join_infix(cs, sep, k);
        lemma_infix_concat("WHERE "@, j, Seq::empty(), cs[k]);
        assert("WHERE "@ + j + Seq::<char>::empty() =~= "WHERE "@ + j);
        lemma_infix_concat(pre, where_str, suf, cs[k]);
    }
    if has_name { assert(has_infix(q, cs[kn])); }
    if has_server { assert(has_infix(q, cs[kv])); }
    if has_start { assert(has_infix(q, cs[kt])); }
    if has_end { assert(has_infix(q, cs[ke])); }
    // a filter that is not given leaves its mark out of the query
    assert forall|f: Seq<char>, c: char|
        #![trigger has_infix(q, f), f.contains(c)]
        f.contains(c) && !pre.contains(c) && !suf.contains(c) && !"WHERE "@.contains(c) && !sep.contains(c)
            && (forall|i: int| 0 <= i < cs.len() ==> !(#[trigger] cs[i]).contains(c))
        implies !has_infix(q, f) by {
        lemma_join_lacks(cs, sep, c);
        if cs.len() > 0 {
            lemma_concat_lacks("WHERE "@, j, c);
        }
        lemma_concat_lacks(pre, where_str, c);
        lemma_concat_lacks(pre + where_str, suf, c);
        if has_infix(q, f) {
            lemma_infix_char(q, f, c);
        }
    }
    if !has_name {
        assert(!has_infix(q, n) && n.contains('l'));
    }
    if !has_server {
        assert(!has_infix(q, v) && v.contains('v'));
    }
    if !has_start {
        assert(!has_infix(q, t) && t.contains('>'));
    }
    if !has_end {
        assert(!has_infix(q, e) && e.contains('<'));
    }
}

/// Builds the history query for the filters that are given.
pub fn name_dates_query(has_name: bool, has_server: bool, has_start: bool, has_end: bool) -> (r: String)
    ensures
        r@ == spec_name_dates_query(has_name, has_server, has_start, has_end),
{
    let mut constraints: Vec<String> = Vec::new();
    if has_name {
        constraints.push(String::from_str("location_name = $name"));
    }
    if has_server {
        constraints.push(String::from_str("server = $server"));
    }
    if has_start {
        constraints.push(String::from_str("created_at >= $start_date"));
    }
    if has_end {
        constraints.push(String::from_str("created_at <= $end_date"));
    }
    assert(string_views(constraints@) =~= name_dates_constraints(has_name, has_server, has_start, has_end));
    let where_str = if constraints.len() == 0 {
        String::new()
    } else {
        String::from_str("WHERE ").concat(join_strings(&constraints, " AND ").as_str())
    };
    String::from_str("\n                SELECT * FROM weather_data\n                ").concat(
        where_str.as_str(),
    ).concat("\n                ORDER BY created_at\n            ")
}

/// ` OFFSET n` where an offset is given, else nothing.
pub open spec fn offset_clause(offset: Option<usize>) -> Seq<char> {
    match offset {
        Some(n) => " OFFSET "@ + decimal(n as nat),
        None => Seq::<char>::empty(),
    }
}

/// ` LIMIT n` where a limit is given, else nothing.
pub open spec fn limit_clause(limit: Option<usize>) -> Seq<char> {
    match limit {
        Some(n) => " LIMIT "@ + decimal(n as nat),
        None => Seq::<char>::empty(),
    }
}

fn append_window(query: &mut String, offset: Option<usize>, limit: Option<usize>)
    ensures
        final(query)@ == old(query)@ + offset_clause(offset) + limit_clause(limit),
{
    if let Some(offset) = offset {
        query.append(" OFFSET ");
        query.append(u64_to_decimal(offset as u64).as_str());
    }
    if let Some(limit) = limit {
        query.append(" LIMIT ");
        query.append(u64_to_decimal(limit as u64).as_str());
    }
}

/// The listing query: all stored observations, newest first when `order`,
/// oldest first otherwise, skipping `offset` and taking at most `limit`.
pub open spec fn spec_weather_data_query(offset: Option<usize>, limit: Option<usize>, order: bool) -> Seq<char> {
    "SELECT * FROM weather_data"@ + (if order {
        " ORDER BY created_at DESC"@
    } else {
        " ORDER BY created_at"@
    }) + offset_clause(offset) + limit_clause(limit)
}

/// Builds the listing query.
pub fn weather_data_query(offset: Option<usize>, limit: Option<usize>, order: bool) -> (r: String)
    ensures
        r@ == spec_weather_data_query(offset, limit, order),
{
    let mut query = String::from_str("SELECT * FROM weather_data");
    if order {
        query.append(" ORDER BY created_at DESC");
    } else {
        query.append(" ORDER BY created_at");
    }
    append_window(&mut query, offset, limit);
    query
}

/// The query that counts observations per location, most observed first.
pub open spec fn spec_locations_query(offset: Option<usize>, limit: Option<usize>) -> Seq<char> {
    "\n                SELECT location_name, count(*) as count\n                FROM weather_data\n                GROUP BY 1\n                ORDER BY 2 DESC\n            "@
        + offset_clause(offset) + limit_clause(limit)
}

/// Builds the per-location count query.
pub fn locations_query(offset: Option<usize>, limit: Option<usize>) -> (r: String)
    ensures
        r@ == spec_locations_query(offset, limit),
{
    let mut query = String::from_str(
        "\n                SELECT location_name, count(*) as count\n                FROM weather_data\n                GROUP BY 1\n                ORDER BY 2 DESC\n            ",
    );
    append_window(&mut query, offset, limit);
    query
}

/// The location-cache lookup by zip code, also matching the country code
/// where one is given; the most recent entry.
pub open spec fn spec_zip_query(has_country_code: bool) -> Seq<char> {
    let cs = if has_country_code {
        seq!["zipcode=$zip"@, "country_code=$country_code"@]
    } else {
        seq!["zipcode=$zip"@]
    };
    "\n                SELECT * FROM weather_location_cache \n                WHERE "@ + join(cs, " AND "@)
        + "\n                ORDER BY created_at DESC\n                LIMIT 1\n            "@
}

/// Builds the location-cache lookup by zip code.
pub fn zip_query(has_country_code: bool) -> (r: String)
    ensures
        r@ == spec_zip_query(has_country_code),
{
    let mut constraints: Vec<String> = Vec::new();
    constraints.push(String::from_str("zipcode=$zip"));
    if has_country_code {
        constraints.push(String::from_str("country_code=$country_code"));
    }
    proof {
        let cs = if has_country_code {
            seq!["zipcode=$zip"@, "country_code=$country_code"@]
        } else {
            seq!["zipcode=$zip"@]
        };
        assert(string_views(constraints@) =~= cs);
    }
    String::from_str("\n                SELECT * FROM weather_location_cache \n                WHERE ").concat(
        join_strings(&constraints, " AND ").as_str(),
    ).concat("\n                ORDER BY created_at DESC\n                LIMIT 1\n            ")
}

/// A number written with at least `width` characters, as `{:0width$}` writes
/// it: the sign first, then the digits left-padded with zeros.
pub open spec fn padded_int(n: int, width: nat) -> Seq<char> {
    if n >= 0 {
        zero_pad(decimal(n as nat), width)
    } else {
        "-"@ + zero_pad(decimal((-n) as nat), if width >= 1 { (width - 1) as nat } else { 0 })
    }
}

fn pad_zeros(s: String, width: usize) -> (r: String)
    ensures
        r@ == zero_pad(s@, width as nat),
{
    if s.unicode_len() >= width {
        return s;
    }
    let mut r = String::new();
    let mut k: usize = 0;
    let fill: usize = width - s.unicode_len();
    while k < fill
        invariant
            k <= fill,
            r@ == Seq::new(k as nat, |_i: int| '0'),
        decreases fill - k,
    {
        crate::text::push_char(&mut r, '0');
        assert(r@ =~= Seq::new((k + 1) as nat, |_i: int| '0'));
        k += 1;
    }
    r.concat(s.as_str())
}

fn format_padded(n: i32, width: usize) -> (r: String)
    requires
        width >= 1,
    ensures
        r@ == padded_int(n as int, width as nat),
{
    if n >= 0 {
        pad_zeros(u64_to_decimal(n as u64), width)
    } else {
        let magnitude: u64 = (-(n as i64)) as u64;
        String::from_str("-").concat(pad_zeros(u64_to_decimal(magnitude), width - 1).as_str())
    }
}

/// The name of the parquet file that holds one month of observations.
pub open spec fn spec_parquet_file_name(year: i32, month: i32) -> Seq<char> {
    "weather_data_"@ + padded_int(year as int, 4) + "_"@ + padded_int(month as int, 2) + ".parquet"@
}

/// The name of the parquet file that holds one month of observations.
pub fn parquet_file_name(year: i32, month: i32) -> (r: String)
    ensures
        r@ == spec_parquet_file_name(year, month),
{
    String::from_str("weather_data_").concat(format_padded(year, 4).as_str()).concat("_").concat(
        format_padded(month, 2).as_str(),
    ).concat(".parquet")
}

} // verus!
