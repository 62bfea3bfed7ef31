use std::collections::BTreeMap;

use mastodon_twitter_sync::cache::{
    insert_date, load_dates_from_cache, remove_dates_from_cache, save_dates_to_cache, CacheError,
    CacheUpdate,
};
use mastodon_twitter_sync::config::config_false_default;
use mastodon_twitter_sync::delete_statuses::{dates_to_remove, prune_deleted, select_older};

const SECOND: i64 = 1_000_000_000;
const T2018: i64 = 1_514_764_800 * SECOND;

fn cache(entries: &[(i64, u64)]) -> BTreeMap<i64, u64> {
    entries.iter().cloned().collect()
}

#[test]
fn missing_cache_file_is_no_cache() {
    assert_eq!(load_dates_from_cache(None), Ok(None));
}

#[test]
fn cache_file_is_read() {
    let text = r#"{"2018-01-01T00:00:00Z":5,"2018-01-01T00:00:01.5Z":7}"#;
    let expected = cache(&[(T2018, 5), (T2018 + SECOND + SECOND / 2, 7)]);
    assert_eq!(load_dates_from_cache(Some(text)), Ok(Some(expected)));
}

#[test]
fn corrupt_cache_file_is_an_error() {
    assert_eq!(load_dates_from_cache(Some("not json")), Err(CacheError::Corrupt));
    assert_eq!(load_dates_from_cache(Some(r#"{"yesterday":1}"#)), Err(CacheError::Corrupt));
}

#[test]
fn saved_cache_reads_back() {
    let dates = cache(&[(T2018, 1), (T2018 + 3 * SECOND, 2), (T2018 + 7, 9)]);
    let text = save_dates_to_cache(&dates);
    assert!(text.contains("2018-01-01T00:00:00Z"));
    assert_eq!(load_dates_from_cache(Some(&text)), Ok(Some(dates)));
}

#[test]
fn empty_removal_leaves_file_alone() {
    let dates = cache(&[(1, 10), (2, 20)]);
    assert!(matches!(remove_dates_from_cache(&Vec::new(), &dates), CacheUpdate::Unchanged));
}

#[test]
fn removing_everything_removes_the_file() {
    let dates = cache(&[(1, 10), (2, 20)]);
    assert!(matches!(remove_dates_from_cache(&vec![2, 1], &dates), CacheUpdate::RemoveFile));
}

#[test]
fn removing_some_rewrites_the_rest() {
    let dates = cache(&[(1, 10), (2, 20), (3, 30)]);
    match remove_dates_from_cache(&vec![2, 4], &dates) {
        CacheUpdate::Write(m) => assert_eq!(m, cache(&[(1, 10), (3, 30)])),
        _ => panic!("expected a rewrite"),
    }
}

#[test]
fn older_entries_are_selected_in_order() {
    let dates = cache(&[(5, 50), (1, 10), (3, 30), (9, 90)]);
    assert_eq!(select_older(&dates, 5), vec![(1, 10), (3, 30)]);
    assert_eq!(select_older(&dates, 100), vec![(1, 10), (3, 30), (5, 50), (9, 90)]);
    assert!(select_older(&dates, 1).is_empty());
    assert!(select_older(&BTreeMap::new(), 1).is_empty());
}

#[test]
fn only_confirmed_deletions_are_removed() {
    let selected = vec![(1, 10), (3, 30), (5, 50)];
    assert_eq!(dates_to_remove(&selected, &vec![true, false, true]), vec![1, 5]);
    assert!(dates_to_remove(&selected, &vec![false, false, false]).is_empty());
}

#[test]
fn failed_delete_stays_cached() {
    let dates = cache(&[(1, 10), (3, 30)]);
    let selected = select_older(&dates, 10);
    match prune_deleted(&dates, &selected, &vec![true, false]) {
        CacheUpdate::Write(m) => assert_eq!(m, cache(&[(3, 30)])),
        _ => panic!("expected a rewrite"),
    }
    assert!(matches!(prune_deleted(&dates, &selected, &vec![false, false]), CacheUpdate::Unchanged));
}

#[test]
fn pruning_one_of_two_keeps_the_file() {
    let (t1, t2) = (T2018, T2018 + 200 * 86_400 * SECOND);
    let dates = cache(&[(t1, 111), (t2, 222)]);
    let selected = select_older(&dates, T2018 + 100 * 86_400 * SECOND);
    assert_eq!(selected, vec![(t1, 111)]);
    match prune_deleted(&dates, &selected, &vec![true]) {
        CacheUpdate::Write(m) => assert_eq!(m, cache(&[(t2, 222)])),
        _ => panic!("expected the file to stay"),
    }
}

#[test]
fn pruning_the_last_entry_removes_the_file() {
    let dates = cache(&[(T2018, 111)]);
    let selected = select_older(&dates, T2018 + SECOND);
    assert!(matches!(prune_deleted(&dates, &selected, &vec![true]), CacheUpdate::RemoveFile));
}

#[test]
fn deletion_switches_default_to_off() {
    assert!(!config_false_default());
}

#[test]
fn saved_text_is_exact_and_ordered() {
    let dates = cache(&[(T2018 + SECOND, 2), (T2018, 1)]);
    assert_eq!(
        save_dates_to_cache(&dates),
        r#"{"2018-01-01T00:00:00Z":1,"2018-01-01T00:00:01Z":2}"#
    );
    assert_eq!(save_dates_to_cache(&BTreeMap::new()), "{}");
}

#[test]
fn equal_maps_save_identically() {
    let a = cache(&[(T2018, 1), (T2018 + 5, 2), (T2018 - 9, 3)]);
    let b = cache(&[(T2018 - 9, 3), (T2018 + 5, 2), (T2018, 1)]);
    assert_eq!(save_dates_to_cache(&a), save_dates_to_cache(&b));
}

#[test]
fn colliding_dates_keep_both_posts() {
    let mut dates = BTreeMap::new();
    assert_eq!(insert_date(&mut dates, 7, 70), Some(7));
    assert_eq!(insert_date(&mut dates, 7, 71), Some(8));
    assert_eq!(insert_date(&mut dates, 7, 72), Some(9));
    assert_eq!(insert_date(&mut dates, 20, 200), Some(20));
    assert_eq!(dates, cache(&[(7, 70), (8, 71), (9, 72), (20, 200)]));
}

#[test]
fn no_free_date_leaves_cache_unchanged() {
    let mut dates = cache(&[(i64::MAX, 1)]);
    assert_eq!(insert_date(&mut dates, i64::MAX, 2), None);
    assert_eq!(dates, cache(&[(i64::MAX, 1)]));
}
