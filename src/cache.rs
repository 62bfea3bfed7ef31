//! The date cache: the platform ids of the account's own posts, keyed by the
//! time each was created, kept on disk as JSON between runs.
use vstd::prelude::*;
use std::collections::BTreeMap;
use chrono::{DateTime, Utc};

verus! {

broadcast use vstd::std_specs::btree::group_btree_axioms;

/// A creation time, in nanoseconds since the Unix epoch (UTC).
pub type Timestamp = i64;

/// Why a cache could not be read or written.
#[derive(Debug, PartialEq, Eq, Structural)]
pub enum CacheError {
    /// The file is not a JSON object from timestamps to ids.
    Corrupt,
}

/// What has to happen to the cache file after a pruning.
pub enum CacheUpdate {
    /// Nothing was removed: the file is left alone.
    Unchanged,
    /// Nothing is left: the file is removed.
    RemoveFile,
    /// The file is overwritten with this mapping.
    Write(BTreeMap<Timestamp, u64>),
}

/// The mapping that a cache file holds, where its text is one.
pub uninterp spec fn cache_of_json(text: Seq<char>) -> Option<Map<Timestamp, u64>>;

/// The JSON text of a mapping.
pub uninterp spec fn json_of_cache(dates: Map<Timestamp, u64>) -> Seq<char>;

/// Relies on serde_json::from_str reading a JSON object whose keys are
/// chrono's RFC 3339 form of `DateTime<Utc>`; each key is then turned into its
/// nanosecond timestamp (a time outside `i64` nanoseconds counts as unreadable).
#[verifier::external_body]
fn parse_cache(text: &str) -> (r: Option<BTreeMap<Timestamp, u64>>)
    ensures
        match r {
            Some(m) => cache_of_json(text@) == Some(m@),
            None => cache_of_json(text@) is None,
        },
{
    let keyed: BTreeMap<DateTime<Utc>, u64> = serde_json::from_str(text).ok()?;
    keyed.into_iter().map(|(d, id)| d.timestamp_nanos_opt().map(|n| (n, id))).collect()
}

/// Relies on serde_json::to_string, with each timestamp written as chrono's
/// `DateTime<Utc>` (from `DateTime::from_timestamp_nanos`, total on `i64`)
/// serializes it: RFC 3339 text with every nanosecond, which chrono reads back
/// to the same time. The map's keys are strings and the output is a `Vec`, so
/// serializing cannot fail.
#[verifier::external_body]
fn render_cache(dates: &BTreeMap<Timestamp, u64>) -> (r: String)
    ensures
        r@ == json_of_cache(dates@),
        cache_of_json(r@) == Some(dates@),
{
    let keyed: BTreeMap<DateTime<Utc>, u64> = dates.iter().map(
        |(n, id)| (DateTime::from_timestamp_nanos(*n), *id),
    ).collect();
    serde_json::to_string(&keyed).expect("a map with string keys always serializes")
}

/// Reads a cache from the contents of its file, `None` where there is no
/// file. A file that cannot be read as a cache is an error, never an empty
/// cache.
pub fn load_dates_from_cache(contents: Option<&str>) -> (r: Result<
    Option<BTreeMap<Timestamp, u64>>,
    CacheError,
>)
    ensures
        contents is None ==> r == Ok::<Option<BTreeMap<Timestamp, u64>>, CacheError>(None),
        contents matches Some(text) ==> match r {
            Ok(Some(m)) => cache_of_json(text@) == Some(m@),
            Ok(None) => false,
            Err(e) => e == CacheError::Corrupt && cache_of_json(text@) is None,
        },
{
    match contents {
        None => Ok(None),
        Some(text) => match parse_cache(text) {
            Some(m) => Ok(Some(m)),
            None => Err(CacheError::Corrupt),
        },
    }
}

/// The text to write to the cache file for `dates`.
pub fn save_dates_to_cache(dates: &BTreeMap<Timestamp, u64>) -> (r: String)
    ensures
        r@ == json_of_cache(dates@),
        cache_of_json(r@) == Some(dates@),
{
    render_cache(dates)
}

/// The same mapping always gives the same text, whatever order it was built in.
pub proof fn lemma_save_deterministic(a: Map<Timestamp, u64>, b: Map<Timestamp, u64>)
    requires
        a == b,
    ensures
        json_of_cache(a) == json_of_cache(b),
{
}

/// Adds a post to the cache under its creation time. Where another post holds
/// that time already, the new one goes under the next free nanosecond after
/// it, so that neither is lost. Returns the key used; `None`, with the cache
/// unchanged, only where every nanosecond from `created` on is taken.
pub fn insert_date(dates: &mut BTreeMap<Timestamp, u64>, created: Timestamp, id: u64) -> (r:
    Option<Timestamp>)
    ensures
        match r {
            Some(k) => created <= k && !old(dates)@.contains_key(k) && (forall|j: Timestamp|
                created <= j < k ==> old(dates)@.contains_key(j)) && final(dates)@ == old(
                dates,
            )@.insert(k, id),
            None => final(dates)@ == old(dates)@ && forall|j: Timestamp|
                created <= j ==> old(dates)@.contains_key(j),
        },
{
    let mut k: Timestamp = created;
    loop
        invariant
            created <= k,
            dates@ == old(dates)@,
            forall|j: Timestamp| created <= j < k ==> old(dates)@.contains_key(j),
        decreases i64::MAX - k,
    {
        if !dates.contains_key(&k) {
            dates.insert(k, id);
            return Some(k);
        }
        if k == i64::MAX {
            return None;
        }
        k = k + 1;
    }
}

/// `dates` without the keys in `removed`.
pub open spec fn pruned(dates: Map<Timestamp, u64>, removed: Seq<Timestamp>) -> Map<
    Timestamp,
    u64,
> {
    dates.remove_keys(removed.to_set())
}

/// Removes `remove_dates` from `cached_dates` and says what becomes of the
/// file: untouched where there was nothing to remove, removed where nothing
/// is left, else overwritten with what is left.
pub fn remove_dates_from_cache(
    remove_dates: &Vec<Timestamp>,
    cached_dates: &BTreeMap<Timestamp, u64>,
) -> (r: CacheUpdate)
    ensures
        remove_dates.len() == 0 <==> r is Unchanged,
        r is RemoveFile <==> remove_dates.len() > 0 && pruned(cached_dates@, remove_dates@).is_empty(),
        r matches CacheUpdate::Write(m) ==> m@ == pruned(cached_dates@, remove_dates@) && !m@.is_empty(),
{
    if remove_dates.len() == 0 {
        return CacheUpdate::Unchanged;
    }
    let mut new_dates = cached_dates.clone();
    let mut i: usize = 0;
    while i < remove_dates.len()
        invariant
            i <= remove_dates.len(),
            new_dates@ == pruned(cached_dates@, remove_dates@.take(i as int)),
        decreases remove_dates.len() - i,
    {
        new_dates.remove(&remove_dates[i]);
        assert(remove_dates@.take(i + 1).to_set() =~= remove_dates@.take(i as int).to_set().insert(
            remove_dates@[i as int],
        )) by {
            assert(remove_dates@.take(i + 1) =~= remove_dates@.take(i as int).push(remove_dates@[i as int]));
            remove_dates@.take(i as int).lemma_push_to_set_commute(remove_dates@[i as int]);
        }
        assert(new_dates@ =~= pruned(cached_dates@, remove_dates@.take(i + 1)));
        i = i + 1;
    }
    assert(remove_dates@.take(remove_dates.len() as int) =~= remove_dates@);
    if new_dates.is_empty() {
        CacheUpdate::RemoveFile
    } else {
        CacheUpdate::Write(new_dates)
    }
}

} // verus!
