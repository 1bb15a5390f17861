//! End-to-end scenarios over the cache, the delta generator, and the
//! upload run.

use tars_deploy::cache::{Cache, CacheProgram, ItemRecord, COLLECTION_INDEX};
use tars_deploy::delta::generate_config_lines;
use tars_deploy::deploy::{apply_write_outcome, finish_write_phase, start_upload};
use tars_deploy::errors::DeployError;
use tars_deploy::upload::{UploadRun, WriteOutcome};

fn record(name: &str, link: &str, on_chain: bool) -> ItemRecord {
    ItemRecord { name: name.to_owned(), metadata_link: link.to_owned(), on_chain }
}

fn cache_with_items(n: u64) -> Cache {
    let mut cache = Cache::new();
    for i in 0..n {
        let name = format!("item{}", i);
        let link = format!("https://example.com/{}.json", i);
        cache.upsert(i as i64, record(&name, &link, false));
    }
    cache
}

#[test]
fn delta_of_empty_cache_with_three_desired_items_fails_count_check() {
    let cache = Cache::new();
    let r = generate_config_lines(3, &cache);
    assert_eq!(r.unwrap_err(), DeployError::CountMismatch(3, 0));
}

#[test]
fn delta_covers_every_unconfirmed_index_in_order() {
    let cache = cache_with_items(3);
    let delta = generate_config_lines(3, &cache).unwrap();
    assert_eq!(delta.len(), 3);
    for (i, entry) in delta.iter().enumerate() {
        assert_eq!(entry.0 as usize, i);
        assert_eq!(entry.1.name, format!("item{}", i));
        assert_eq!(entry.1.uri, format!("https://example.com/{}.json", i));
    }
}

#[test]
fn delta_generator_is_idempotent_without_uploads() {
    let mut cache = cache_with_items(5);
    cache.mark_on_chain(2);
    let first = generate_config_lines(5, &cache).unwrap();
    let second = generate_config_lines(5, &cache).unwrap();
    assert_eq!(first, second);
}

#[test]
fn confirmed_index_never_reappears_in_a_delta() {
    let mut cache = cache_with_items(4);
    cache.mark_on_chain(1);
    let delta = generate_config_lines(4, &cache).unwrap();
    assert!(delta.iter().all(|e| e.0 != 1));
    assert_eq!(delta.len(), 3);
}

#[test]
fn count_mismatch_detected_with_collection_entry_excluded() {
    // A manifest declaring 100 items against a cache of 95 ordinary entries
    // plus the collection entry must fail, not run partially.
    let mut cache = cache_with_items(95);
    cache.upsert(COLLECTION_INDEX, record("collection", "https://example.com/c.json", false));
    let r = generate_config_lines(100, &cache);
    assert_eq!(r.unwrap_err(), DeployError::CountMismatch(100, 95));
}

#[test]
fn empty_name_is_rejected_before_upload() {
    let mut cache = cache_with_items(2);
    cache.upsert(1, record("", "https://example.com/1.json", false));
    let r = generate_config_lines(2, &cache);
    assert_eq!(r.unwrap_err(), DeployError::MissingName(1));
}

#[test]
fn empty_link_is_rejected_before_upload() {
    let mut cache = cache_with_items(2);
    cache.upsert(0, record("item0", "", false));
    let r = generate_config_lines(2, &cache);
    assert_eq!(r.unwrap_err(), DeployError::MissingMetadataLink(0));
}

#[test]
fn gap_in_cache_indices_is_reported() {
    let mut cache = Cache::new();
    cache.upsert(0, record("a", "https://example.com/a.json", false));
    cache.upsert(5, record("b", "https://example.com/b.json", false));
    let r = generate_config_lines(2, &cache);
    assert_eq!(r.unwrap_err(), DeployError::MissingItem(1));
}

#[test]
fn partial_failure_run_confirms_the_rest_and_a_rerun_retries_only_the_failed() {
    // Three items, the middle one rejected: the cache keeps the two
    // confirmations, and the next delta holds only the failed index.
    let mut cache = cache_with_items(3);
    let mut run = start_upload(3, &cache, 0).unwrap();

    while let Some(entry) = run.next_dispatch() {
        let outcome = if entry.index == 1 {
            WriteOutcome::Rejected("rejected".to_owned())
        } else {
            WriteOutcome::Confirmed
        };
        apply_write_outcome(&mut run, &mut cache, entry.index, outcome);
    }
    assert!(run.is_done());
    let outcome = run.outcome();
    assert_eq!(outcome.confirmed, vec![0, 2]);
    assert_eq!(outcome.errors, vec![(1, "rejected".to_owned())]);
    assert!(!outcome.interrupted);
    assert_eq!(finish_write_phase(&outcome).unwrap_err(), DeployError::AddConfigLineFailed(1));

    assert!(cache.get(0).unwrap().on_chain);
    assert!(!cache.get(1).unwrap().on_chain);
    assert_eq!(cache.get(1).unwrap().name, "item1");
    assert!(cache.get(2).unwrap().on_chain);

    let second = generate_config_lines(3, &cache).unwrap();
    assert_eq!(second.len(), 1);
    assert_eq!(second[0].0, 1);
    assert_eq!(second[0].1.name, "item1");
}

#[test]
fn crash_before_persistence_resubmits_only_the_lost_item() {
    // The remote write of index 1 was confirmed, but the process died before
    // the cache recorded it: the restarted run recomputes the delta from the
    // stale cache and resubmits exactly that item.
    let mut cache = cache_with_items(3);
    cache.mark_on_chain(0);
    cache.mark_on_chain(2);
    // index 1 confirmed remotely, not persisted locally
    let delta = generate_config_lines(3, &cache).unwrap();
    assert_eq!(delta.len(), 1);
    assert_eq!(delta[0].0, 1);
}

#[test]
fn cancellation_stops_new_dispatches_and_tags_the_result() {
    // Fifty items; after ten confirmations the operator cancels: nothing new
    // is dispatched, at most ten confirmations are recorded, and the result
    // carries the interruption marker.
    let mut cache = cache_with_items(50);
    let mut run = start_upload(50, &cache, 0).unwrap();

    for _ in 0..10 {
        let entry = run.next_dispatch().unwrap();
        apply_write_outcome(&mut run, &mut cache, entry.index, WriteOutcome::Confirmed);
    }
    run.cancel();
    assert!(run.next_dispatch().is_none());
    assert!(run.is_done());

    let outcome = run.outcome();
    assert!(outcome.interrupted);
    assert_eq!(outcome.confirmed.len(), 10);
    assert!(outcome.errors.is_empty());
    let confirmed_in_cache =
        (0..50).filter(|&i| cache.get(i).map(|r| r.on_chain) == Some(true)).count();
    assert_eq!(confirmed_in_cache, 10);
}

#[test]
fn inflight_outcome_is_still_accepted_after_cancellation() {
    let mut cache = cache_with_items(2);
    let mut run = start_upload(2, &cache, 0).unwrap();
    let entry = run.next_dispatch().unwrap();
    run.cancel();
    assert!(run.next_dispatch().is_none());
    // the write already in flight is allowed to finish and is recorded
    apply_write_outcome(&mut run, &mut cache, entry.index, WriteOutcome::Confirmed);
    assert!(run.is_done());
    let outcome = run.outcome();
    assert!(outcome.interrupted);
    assert_eq!(outcome.confirmed, vec![0]);
}

#[test]
fn transient_failures_are_retried_within_budget_then_recorded() {
    let cache = cache_with_items(1);
    let delta = generate_config_lines(1, &cache).unwrap();
    let mut run = UploadRun::new(delta, 2);

    // two transient failures fit the budget of two retries
    for _ in 0..2 {
        let entry = run.next_dispatch().unwrap();
        run.report(entry.index, WriteOutcome::Transient("timeout".to_owned()));
        assert!(!run.is_done());
    }
    // the third transient failure exhausts the budget
    let entry = run.next_dispatch().unwrap();
    assert_eq!(entry.attempts, 2);
    run.report(entry.index, WriteOutcome::Transient("timeout".to_owned()));
    assert!(run.is_done());
    let outcome = run.outcome();
    assert_eq!(outcome.errors, vec![(0, "timeout".to_owned())]);
    assert!(outcome.confirmed.is_empty());
}

#[test]
fn repeated_runs_converge_once_writes_succeed() {
    // Each run confirms only its first dispatch and rejects the rest, so
    // every run makes progress on exactly one item: rerunning the pipeline
    // still reaches the state where everything is confirmed.
    let mut cache = cache_with_items(4);
    let mut rounds = 0;
    loop {
        let delta = generate_config_lines(4, &cache).unwrap();
        if delta.is_empty() {
            break;
        }
        let previous_pending = delta.len();
        let mut run = start_upload(4, &cache, 0).unwrap();
        let mut first = true;
        while let Some(entry) = run.next_dispatch() {
            let outcome = if first {
                first = false;
                WriteOutcome::Confirmed
            } else {
                WriteOutcome::Rejected("rejected".to_owned())
            };
            apply_write_outcome(&mut run, &mut cache, entry.index, outcome);
        }
        let next_pending = generate_config_lines(4, &cache).unwrap().len();
        assert_eq!(next_pending, previous_pending - 1);
        rounds += 1;
        assert!(rounds <= 4);
    }
    assert_eq!(rounds, 4);
    for i in 0..4 {
        assert!(cache.get(i).unwrap().on_chain);
    }
}

#[test]
fn nothing_to_do_when_everything_is_confirmed() {
    let mut cache = cache_with_items(2);
    cache.mark_on_chain(0);
    cache.mark_on_chain(1);
    let delta = generate_config_lines(2, &cache).unwrap();
    assert!(delta.is_empty());
}

#[test]
fn cache_store_keeps_order_and_uniqueness() {
    let mut cache = Cache::new();
    cache.upsert(2, record("c", "https://example.com/c.json", false));
    cache.upsert(0, record("a", "https://example.com/a.json", false));
    cache.upsert(2, record("c2", "https://example.com/c2.json", true));
    assert_eq!(cache.len(), 2);
    let entries = cache.entries_vec();
    assert_eq!(entries[0].0, 2);
    assert_eq!(entries[0].1.name, "c2");
    assert!(entries[0].1.on_chain);
    assert_eq!(entries[1].0, 0);

    assert!(cache.remove(2));
    assert!(!cache.remove(2));
    assert_eq!(cache.len(), 1);
    assert!(cache.get(2).is_none());
    assert_eq!(cache.get(0).unwrap().name, "a");
}

#[test]
fn cache_from_entries_rejects_duplicate_indices() {
    let entries = vec![
        (0i64, record("a", "u", false)),
        (1, record("b", "u", false)),
        (0, record("c", "u", false)),
    ];
    let r = Cache::from_entries(CacheProgram::new(), entries);
    assert!(r.is_err());
}

#[test]
fn cache_counts_exclude_the_collection_entry() {
    let mut cache = cache_with_items(3);
    assert_eq!(cache.non_collection_count(), 3);
    cache.upsert(COLLECTION_INDEX, record("collection", "u", false));
    assert_eq!(cache.len(), 4);
    assert_eq!(cache.non_collection_count(), 3);
    assert!(cache.has_collection());
}
