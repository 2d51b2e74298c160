//! The cached handle of the haptic engine.

use openlogi::haptic::{
    after_cached_play, after_fresh_play, arm_repair, begin_play, clear_haptic_feature_cache,
    clear_haptic_feature_cache_for, EpochGuarded, PlayStep, FALLBACK_INTENSITY,
};

/// The registry still publishes the channel the open resolved.
const CURRENT: fn() -> bool = || true;
/// The registry has dropped it: the enumerator retired the node.
const RETIRED: fn() -> bool = || false;

#[test]
fn a_store_started_before_a_clear_is_discarded() {
    let mut cache = EpochGuarded::new();
    let epoch = cache.epoch;
    cache.clear_for(0xA);
    cache.store(epoch, 0xA, 2, "stale", CURRENT);
    assert_eq!(cache.get(0xA, 2), None);
}

#[test]
fn a_store_for_a_channel_retired_before_the_open_is_discarded() {
    let mut cache = EpochGuarded::new();
    cache.clear_for(0xA);
    let epoch = cache.epoch;

    cache.store(epoch, 0xA, 2, "retired", RETIRED);

    assert_eq!(
        cache.get(0xA, 2),
        None,
        "a channel the enumerator has retired must never be cached again"
    );
}

#[test]
fn a_store_with_a_current_epoch_lands() {
    let mut cache = EpochGuarded::new();
    cache.store(cache.epoch, 0xA, 2, "fresh", CURRENT);
    assert_eq!(cache.get(0xA, 2), Some("fresh"));
    assert_eq!(cache.get(0xB, 2), None);
    assert_eq!(cache.get(0xA, 3), None);
}

#[test]
fn retiring_one_channel_keeps_anothers_entry_but_blocks_stale_stores() {
    let mut cache = EpochGuarded::new();
    cache.store(cache.epoch, 0xA, 2, "kept", CURRENT);
    let epoch = cache.epoch;
    cache.clear_for(0xB);
    assert_eq!(cache.get(0xA, 2), Some("kept"));
    cache.store(epoch, 0xB, 1, "stale", CURRENT);
    assert_eq!(cache.get(0xB, 1), None);
}

#[test]
fn a_full_clear_empties_the_entry_and_blocks_stale_stores() {
    let mut cache = EpochGuarded::new();
    let epoch = cache.epoch;
    cache.store(epoch, 0xA, 2, "cached", CURRENT);
    cache.clear();
    assert_eq!(cache.get(0xA, 2), None);
    cache.store(epoch, 0xA, 2, "stale", CURRENT);
    assert_eq!(cache.get(0xA, 2), None);
}

#[test]
fn clearing_the_feature_cache_forgets_the_handle() {
    let mut cache = EpochGuarded::new();
    cache.store(cache.epoch, 0xA, 2, "handle", CURRENT);
    clear_haptic_feature_cache_for(&mut cache, 0xB);
    assert_eq!(cache.get(0xA, 2), Some("handle"));
    clear_haptic_feature_cache_for(&mut cache, 0xA);
    assert_eq!(cache.get(0xA, 2), None);
    cache.store(cache.epoch, 0xA, 2, "handle", CURRENT);
    clear_haptic_feature_cache(&mut cache);
    assert_eq!(cache.get(0xA, 2), None);
}

#[test]
fn a_silent_or_disabled_engine_is_armed() {
    assert_eq!(arm_repair(true, 60), None);
    assert_eq!(arm_repair(false, 60), Some(60));
    assert_eq!(arm_repair(true, 0), Some(FALLBACK_INTENSITY));
    assert_eq!(arm_repair(false, 0), Some(FALLBACK_INTENSITY));
}

#[test]
fn a_failed_cached_play_opens_the_feature_anew() {
    let mut cache = EpochGuarded::new();
    assert_eq!(begin_play(&cache, 0xA, 2), PlayStep::Open { epoch: 0 });
    after_fresh_play(&mut cache, 0, 0xA, 2, "first", true, CURRENT);
    assert_eq!(begin_play(&cache, 0xA, 2), PlayStep::PlayCached);
    assert_eq!(after_cached_play(&mut cache, true), PlayStep::Played);
    assert_eq!(after_cached_play(&mut cache, false), PlayStep::Open { epoch: 1 });
    assert_eq!(cache.get(0xA, 2), None);
    after_fresh_play(&mut cache, 1, 0xA, 2, "second", false, CURRENT);
    assert_eq!(cache.get(0xA, 2), None, "only a handle that played is kept");
}
