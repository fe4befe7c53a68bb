use vstd::prelude::*;

use time::OffsetDateTime;

use crate::decimal::{decimal, u64_to_decimal};
use crate::text::{str_chars, string_from_chars};

verus! {

/// Whether `OffsetDateTime::from_unix_timestamp` accepts a timestamp: the
/// time crate, built without its `large-dates` feature as here, takes the
/// instants from -9999-01-01 00:00:00 UTC to 9999-12-31 23:59:59 UTC.
pub open spec fn unix_timestamp_valid(t: i64) -> bool {
    -377705116800 <= t && t <= 253402300799
}

#[verifier::external_type_specification]
#[verifier::external_body]
pub struct ExOffsetDateTime(OffsetDateTime);

/// The Unix timestamp of an instant, as `OffsetDateTime::unix_timestamp`
/// gives it.
pub uninterp spec fn instant_unix_timestamp(d: OffsetDateTime) -> i64;

/// Trusted: `OffsetDateTime::from_unix_timestamp` of the time crate. It
/// accepts exactly the timestamps of the range above, and the instant it
/// makes has that timestamp back (the time crate builds the date and time of
/// day from the timestamp in UTC, and `unix_timestamp` computes it back).
#[verifier::external_body]
fn instant_from_unix_timestamp(t: i64) -> (r: Option<OffsetDateTime>)
    ensures
        r is Some <==> unix_timestamp_valid(t),
        r matches Some(d) ==> instant_unix_timestamp(d) == t,
{
    OffsetDateTime::from_unix_timestamp(t).ok()
}

/// Trusted: `OffsetDateTime::unix_timestamp` of the time crate.
#[verifier::external_body]
fn unix_timestamp_of(d: &OffsetDateTime) -> (r: i64)
    ensures
        r == instant_unix_timestamp(*d),
{
    d.unix_timestamp()
}

/// The text without the characters `c` at its start.
pub open spec fn trim_start_char(s: Seq<char>, c: char) -> Seq<char>
    decreases s.len(),
{
    if s.len() > 0 && s[0] == c {
        trim_start_char(s.drop_first(), c)
    } else {
        s
    }
}

/// The text without the characters `c` at its end.
pub open spec fn trim_end_char(s: Seq<char>, c: char) -> Seq<char>
    decreases s.len(),
{
    if s.len() > 0 && s.last() == c {
        trim_end_char(s.drop_last(), c)
    } else {
        s
    }
}

/// The text without the characters `c` at either end, as `str::trim_matches`
/// with a char pattern gives it.
pub open spec fn trim_char(s: Seq<char>, c: char) -> Seq<char> {
    trim_end_char(trim_start_char(s, c), c)
}

proof fn lemma_trim_start(s: Seq<char>, c: char, i: int)
    requires
        0 <= i <= s.len(),
        forall|k: int| 0 <= k < i ==> #[trigger] s[k] == c,
        i == s.len() || s[i] != c,
    ensures
        trim_start_char(s, c) == s.skip(i),
    decreases i,
{
    if i > 0 {
        assert forall|k: int| 0 <= k < i - 1 implies #[trigger] s.drop_first()[k] == c by {
            assert(s.drop_first()[k] == s[k + 1]);
        }
        if i < s.len() {
            assert(s.drop_first()[i - 1] == s[i]);
        }
        lemma_trim_start(s.drop_first(), c, i - 1);
        assert(s.drop_first().skip(i - 1) =~= s.skip(i));
    } else {
        assert(s.skip(0) =~= s);
    }
}

proof fn lemma_trim_end(s: Seq<char>, c: char, j: int)
    requires
        0 <= j <= s.len(),
        forall|k: int| j <= k < s.len() ==> #[trigger] s[k] == c,
        j == 0 || s[j - 1] != c,
    ensures
        trim_end_char(s, c) == s.take(j),
    decreases s.len() - j,
{
    if j < s.len() {
        assert(s[s.len() - 1] == c);
        assert forall|k: int| j <= k < s.drop_last().len() implies #[trigger] s.drop_last()[k] == c by {
            assert(s.drop_last()[k] == s[k]);
        }
        if j > 0 {
            assert(s.drop_last()[j - 1] == s[j - 1]);
        }
        lemma_trim_end(s.drop_last(), c, j);
        assert(s.drop_last().take(j) =~= s.take(j));
    } else {
        assert(s.take(j) =~= s);
    }
}

proof fn lemma_trim_start_first(s: Seq<char>, c: char)
    ensures
        trim_start_char(s, c).len() > 0 ==> trim_start_char(s, c)[0] != c,
    decreases s.len(),
{
    if s.len() > 0 && s[0] == c {
        lemma_trim_start_first(s.drop_first(), c);
    }
}

proof fn lemma_trim_end_prefix(u: Seq<char>, c: char)
    ensures
        trim_end_char(u, c).len() <= u.len(),
        trim_end_char(u, c) == u.take(trim_end_char(u, c).len() as int),
        trim_end_char(u, c).len() > 0 ==> trim_end_char(u, c).last() != c,
    decreases u.len(),
{
    if u.len() > 0 && u.last() == c {
        lemma_trim_end_prefix(u.drop_last(), c);
        let t = trim_end_char(u.drop_last(), c);
        assert(u.drop_last().take(t.len() as int) =~= u.take(t.len() as int));
    } else {
        assert(u.take(u.len() as int) =~= u);
    }
}

/// Trimming removes every `c` at both ends: what is left neither starts nor
/// ends with `c`, and trimming it again changes nothing.
pub proof fn lemma_trim_char(s: Seq<char>, c: char)
    ensures
        trim_char(s, c).len() > 0 ==> trim_char(s, c)[0] != c && trim_char(s, c).last() != c,
        trim_char(trim_char(s, c), c) == trim_char(s, c),
{
    let u = trim_start_char(s, c);
    let t = trim_char(s, c);
    lemma_trim_start_first(s, c);
    lemma_trim_end_prefix(u, c);
    if t.len() > 0 {
        assert(t[0] == u[0]);
    }
    assert(trim_start_char(t, c) == t);
    lemma_trim_end_prefix(t, c);
    assert(trim_end_char(t, c) == t);
}

/// Removes the characters `c` at both ends of a text.
pub fn trim_matches_char(s: &str, c: char) -> (r: String)
    ensures
        r@ == trim_char(s@, c),
{
    let cs = str_chars(s);
    let mut i: usize = 0;
    while i < cs.len() && cs[i] == c
        invariant
            i <= cs@.len(),
            forall|k: int| 0 <= k < i ==> #[trigger] cs@[k] == c,
        decreases cs@.len() - i,
    {
        i += 1;
    }
    proof {
        lemma_trim_start(cs@, c, i as int);
    }
    let ghost rest = cs@.skip(i as int);
    let mut j: usize = cs.len();
    while j > i && cs[j - 1] == c
        invariant
            i <= j <= cs@.len(),
            forall|k: int| j <= k < cs@.len() ==> #[trigger] cs@[k] == c,
        decreases j,
    {
        j -= 1;
    }
    proof {
        assert forall|k: int| j - i <= k < rest.len() implies #[trigger] rest[k] == c by {
            assert(rest[k] == cs@[i + k]);
        }
        if j > i {
            assert(rest[j - i - 1] == cs@[j - 1]);
        }
        lemma_trim_end(rest, c, j - i);
    }
    let mut out: Vec<char> = Vec::new();
    let mut k: usize = i;
    while k < j
        invariant
            i <= k <= j <= cs@.len(),
            out@ == cs@.subrange(i as int, k as int),
        decreases j - k,
    {
        out.push(cs[k]);
        assert(cs@.subrange(i as int, k + 1) =~= cs@.subrange(i as int, k as int).push(cs@[k as int]));
        k += 1;
    }
    assert(out@ =~= rest.take(j - i));
    string_from_chars(&out)
}

/// An object of the backup bucket.
#[derive(Debug, Clone)]
pub struct KeyItem {
    pub key: String,
    pub etag: String,
    pub timestamp: i64,
    pub size: u64,
}

impl PartialEq for KeyItem {
    /// Two objects are the same when their keys are.
    fn eq(&self, other: &Self) -> (r: bool) {
        self.key == other.key
    }
}

impl vstd::std_specs::cmp::PartialEqSpecImpl for KeyItem {
    open spec fn obeys_eq_spec() -> bool {
        true
    }

    open spec fn eq_spec(&self, other: &Self) -> bool {
        self.key@ == other.key@
    }
}

impl Eq for KeyItem {}

/// What the sync state records of one object.
#[derive(Debug, Clone, PartialEq, Eq)]
pub struct KeyItemCache {
    pub s3_key: String,
    pub etag: String,
    pub s3_timestamp: i64,
    pub s3_size: i64,
    pub has_local: bool,
    pub has_remote: bool,
}

/// An object as the sync state holds it, with neither copy marked.
pub open spec fn spec_to_cache(k: KeyItem) -> KeyItemCache {
    KeyItemCache {
        s3_key: k.key,
        etag: k.etag,
        s3_timestamp: k.timestamp,
        s3_size: k.size as i64,
        has_local: false,
        has_remote: false,
    }
}

/// The object a sync record describes.
pub open spec fn spec_to_key_item(c: KeyItemCache) -> KeyItem {
    KeyItem { key: c.s3_key, etag: c.etag, timestamp: c.s3_timestamp, size: c.s3_size as u64 }
}

/// Recording an object and reading it back gives the same object; reading a
/// record and recording it again gives the record with both marks cleared.
pub proof fn lemma_key_item_cache_roundtrip(k: KeyItem, c: KeyItemCache)
    ensures
        spec_to_key_item(spec_to_cache(k)) == k,
        spec_to_cache(spec_to_key_item(c)) == (KeyItemCache { has_local: false, has_remote: false, ..c }),
{
    let size = k.size;
    let s3_size = c.s3_size;
    assert((size as i64) as u64 == size) by (bit_vector);
    assert((s3_size as u64) as i64 == s3_size) by (bit_vector);
}

impl KeyItem {
    /// A listed object, where it has a key, an etag and a modification time
    /// the time crate accepts; the etag loses its surrounding quotes.
    pub fn from_s3_parts(key: Option<String>, e_tag: Option<String>, last_modified: Option<i64>, size: i64) -> (r: Option<Self>)
        ensures
            r is Some <==> (key is Some && e_tag is Some && last_modified is Some
                && unix_timestamp_valid(last_modified->0)),
            r matches Some(item) ==> item.key@ == key->0@ && item.etag@ == trim_char(e_tag->0@, '"')
                && item.timestamp == last_modified->0 && item.size == size as u64,
    {
        match (key, e_tag, last_modified) {
            (Some(key), Some(etag), Some(last_mod)) => {
                match instant_from_unix_timestamp(last_mod) {
                    Some(instant) => Some(
                        KeyItem {
                            key,
                            etag: trim_matches_char(etag.as_str(), '"'),
                            timestamp: unix_timestamp_of(&instant),
                            size: size as u64,
                        },
                    ),
                    None => None,
                }
            },
            _ => None,
        }
    }

    /// The object as the sync state holds it, with neither copy marked.
    pub fn to_cache(self) -> (r: KeyItemCache)
        ensures
            r == spec_to_cache(self),
    {
        KeyItemCache {
            s3_key: self.key,
            etag: self.etag,
            s3_timestamp: self.timestamp,
            s3_size: self.size as i64,
            has_local: false,
            has_remote: false,
        }
    }
}

impl KeyItemCache {
    /// The object the sync state describes.
    pub fn to_key_item(self) -> (r: KeyItem)
        ensures
            r == spec_to_key_item(self),
    {
        KeyItem {
            key: self.s3_key,
            etag: self.etag,
            timestamp: self.s3_timestamp,
            size: self.s3_size as u64,
        }
    }
}

/// The state recorded for a listed object, given what was recorded before.
///
/// An object not seen before is recorded as present in the bucket. A known
/// object is marked present in the bucket; where both its time and its etag
/// changed, a larger bucket copy replaces the record (present in the bucket
/// only) and a smaller one marks the bucket copy as not to be trusted.
pub open spec fn spec_reconcile_remote(key: KeyItem, existing: Option<KeyItemCache>) -> KeyItemCache {
    let fresh = KeyItemCache {
        s3_key: key.key,
        etag: key.etag,
        s3_timestamp: key.timestamp,
        s3_size: key.size as i64,
        has_local: false,
        has_remote: true,
    };
    match existing {
        None => fresh,
        Some(item) => {
            let marked = KeyItemCache { has_remote: true, ..item };
            if key.timestamp != item.s3_timestamp && key.etag@ != item.etag@ {
                if (key.size as i64) > item.s3_size {
                    fresh
                } else if (key.size as i64) < item.s3_size {
                    KeyItemCache { has_remote: false, ..item }
                } else {
                    marked
                }
            } else {
                marked
            }
        },
    }
}

/// What listing an object does to the sync state. An object not recorded
/// yet gets a record of its own: its key, etag, time and size, present in the
/// bucket and not locally. A recorded object keeps its record, only marked
/// present in the bucket, where its time or its etag is unchanged or its size
/// is the recorded one; where both changed and the bucket copy is larger, the
/// record becomes that of the bucket copy, present in the bucket only; where
/// both changed and it is smaller, the record stays, marked not present in
/// the bucket.
pub proof fn lemma_reconcile_remote(key: KeyItem, item: KeyItemCache)
    ensures
        spec_reconcile_remote(key, None).s3_key == key.key,
        spec_reconcile_remote(key, None).etag == key.etag,
        spec_reconcile_remote(key, None).s3_timestamp == key.timestamp,
        spec_reconcile_remote(key, None).s3_size == key.size as i64,
        !spec_reconcile_remote(key, None).has_local,
        spec_reconcile_remote(key, None).has_remote,
        (key.timestamp == item.s3_timestamp || key.etag@ == item.etag@ || key.size as i64 == item.s3_size) ==> {
            let r = spec_reconcile_remote(key, Some(item));
            &&& r.s3_key == item.s3_key
            &&& r.etag == item.etag
            &&& r.s3_timestamp == item.s3_timestamp
            &&& r.s3_size == item.s3_size
            &&& r.has_local == item.has_local
            &&& r.has_remote
        },
        (key.timestamp != item.s3_timestamp && key.etag@ != item.etag@ && (key.size as i64) > item.s3_size) ==> {
            let r = spec_reconcile_remote(key, Some(item));
            &&& r.s3_key == key.key
            &&& r.etag == key.etag
            &&& r.s3_timestamp == key.timestamp
            &&& r.s3_size == key.size as i64
            &&& !r.has_local
            &&& r.has_remote
        },
        (key.timestamp != item.s3_timestamp && key.etag@ != item.etag@ && (key.size as i64) < item.s3_size) ==> {
            let r = spec_reconcile_remote(key, Some(item));
            &&& r.s3_key == item.s3_key
            &&& r.etag == item.etag
            &&& r.s3_timestamp == item.s3_timestamp
            &&& r.s3_size == item.s3_size
            &&& r.has_local == item.has_local
            &&& !r.has_remote
        },
{
}

/// The state to record for a listed object.
pub fn reconcile_remote(key: KeyItem, existing: Option<KeyItemCache>) -> (r: KeyItemCache)
    ensures
        r == spec_reconcile_remote(key, existing),
{
    match existing {
        Some(mut key_item) => {
            key_item.has_remote = true;
            if key.timestamp != key_item.s3_timestamp && key.etag != key_item.etag {
                let key_size = key.size as i64;
                if key_size > key_item.s3_size {
                    key_item = key.to_cache();
                    key_item.has_remote = true;
                } else if key_size < key_item.s3_size {
                    key_item.has_remote = false;
                }
            }
            key_item
        },
        None => {
            let mut key_item = key.to_cache();
            key_item.has_remote = true;
            key_item
        },
    }
}

/// Whether a local file's checksum is needed: always for a file not yet
/// recorded; for a recorded one, when its time differs from the record's and
/// it is larger than the record says.
pub open spec fn spec_local_file_needs_md5(modified: i64, size: u64, existing: Option<KeyItemCache>) -> bool {
    match existing {
        None => true,
        Some(item) => modified != item.s3_timestamp && (size as i64) > item.s3_size,
    }
}

/// Whether a local file's checksum is needed to update the sync state.
pub fn local_file_needs_md5(modified: i64, size: u64, existing: &Option<KeyItemCache>) -> (r: bool)
    ensures
        r == spec_local_file_needs_md5(modified, size, *existing),
{
    match existing {
        None => true,
        Some(item) => modified != item.s3_timestamp && (size as i64) > item.s3_size,
    }
}

/// The record to write for a local file, if any: a file not recorded before
/// is recorded as present locally only; a recorded one that needs its
/// checksum and whose checksum differs from the record's is marked present
/// locally and not in the bucket; otherwise nothing is written.
pub open spec fn spec_local_file_update(key: Seq<char>, modified: i64, size: u64, existing: Option<KeyItemCache>, etag: Seq<char>) -> Option<(Seq<char>, Seq<char>, i64, i64, bool, bool)> {
    match existing {
        None => Some((key, etag, modified, size as i64, true, false)),
        Some(item) => if spec_local_file_needs_md5(modified, size, existing) && etag != item.etag@ {
            Some((item.s3_key@, item.etag@, item.s3_timestamp, item.s3_size, true, false))
        } else {
            None
        },
    }
}

/// The model of a record.
pub open spec fn cache_view(c: KeyItemCache) -> (Seq<char>, Seq<char>, i64, i64, bool, bool) {
    (c.s3_key@, c.etag@, c.s3_timestamp, c.s3_size, c.has_local, c.has_remote)
}

/// The record to write for a local file with checksum `etag`.
pub fn local_file_update(key: String, modified: i64, size: u64, existing: Option<KeyItemCache>, etag: String) -> (r: Option<KeyItemCache>)
    ensures
        match r {
            Some(c) => spec_local_file_update(key@, modified, size, existing, etag@) == Some(cache_view(c)),
            None => spec_local_file_update(key@, modified, size, existing, etag@) is None,
        },
{
    match existing {
        Some(mut key_item) => {
            if modified != key_item.s3_timestamp && (size as i64) > key_item.s3_size && etag != key_item.etag {
                key_item.has_local = true;
                key_item.has_remote = false;
                Some(key_item)
            } else {
                None
            }
        },
        None => Some(
            KeyItemCache {
                s3_key: key,
                etag,
                s3_timestamp: modified,
                s3_size: size as i64,
                has_local: true,
                has_remote: false,
            },
        ),
    }
}

/// The record after its object was downloaded: present locally.
pub fn after_download(item: KeyItemCache) -> (r: KeyItemCache)
    ensures
        r == (KeyItemCache { has_local: true, ..item }),
{
    let mut item = item;
    item.has_local = true;
    item
}

/// The record of an object to upload, and whether to upload it: where the
/// local file is gone, it is marked absent locally and nothing is uploaded;
/// else it is uploaded and marked present in the bucket.
pub fn after_upload(item: KeyItemCache, local_exists: bool) -> (r: (KeyItemCache, bool))
    ensures
        r.1 == local_exists,
        local_exists ==> r.0 == (KeyItemCache { has_remote: true, ..item }),
        !local_exists ==> r.0 == (KeyItemCache { has_local: false, ..item }),
{
    let mut item = item;
    if local_exists {
        item.has_remote = true;
    } else {
        item.has_local = false;
    }
    (item, local_exists)
}

/// The summary line of a sync run.
pub open spec fn spec_sync_message(title: Seq<char>, bucket: Seq<char>, n_keys: u64, uploaded: u64, downloaded: u64) -> Seq<char> {
    title + " "@ + bucket + " s3_bucketnkeys "@ + decimal(n_keys as nat) + " uploaded "@ + decimal(
        uploaded as nat,
    ) + " downloaded "@ + decimal(downloaded as nat)
}

/// The summary line of a sync run.
pub fn sync_message(title: &str, bucket: &str, n_keys: u64, uploaded: u64, downloaded: u64) -> (r: String)
    ensures
        r@ == spec_sync_message(title@, bucket@, n_keys, uploaded, downloaded),
{
    String::from_str(title).concat(" ").concat(bucket).concat(" s3_bucketnkeys ").concat(
        u64_to_decimal(n_keys).as_str(),
    ).concat(" uploaded ").concat(u64_to_decimal(uploaded).as_str()).concat(" downloaded ").concat(
        u64_to_decimal(downloaded).as_str(),
    )
}

} // verus!
