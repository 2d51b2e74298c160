//! The handle cache behind haptic feedback.
//!
//! Opening a device's haptic feature costs two extra round-trips per play, so
//! the last handle that was opened is kept. A handle pins its channel, and a
//! channel that is retired must never be pinned again: a node is reopened only
//! once nothing holds its old channel.

use vstd::prelude::*;

verus! {

/// The last handle that was opened, keyed by channel identity and device
/// index, with a count of the clears so far.
///
/// A store is dropped when a clear ran since its open began, and when the
/// channel is no longer published at the moment of the store.
pub struct EpochGuarded<T> {
    /// Number of clears so far, wrapping.
    pub epoch: u64,
    /// Channel, device index, and handle.
    pub entry: Option<(usize, u8, T)>,
}

/// What a cache holds.
pub ghost struct CacheModel<T> {
    /// Number of clears so far, wrapping.
    pub epoch: u64,
    /// Channel, device index, and handle.
    pub entry: Option<(usize, u8, T)>,
}

impl<T> CacheModel<T> {
    /// The handle for this channel and index.
    pub open spec fn lookup(self, ptr: usize, index: u8) -> Option<T> {
        match self.entry {
            Some((p, i, value)) if p == ptr && i == index => Some(value),
            _ => None,
        }
    }

    /// The cache after a clear of everything.
    pub open spec fn cleared(self) -> CacheModel<T> {
        CacheModel { epoch: next_epoch(self.epoch), entry: None }
    }

    /// The cache after the channel `ptr` was retired.
    pub open spec fn retired(self, ptr: usize) -> CacheModel<T> {
        CacheModel {
            epoch: next_epoch(self.epoch),
            entry: match self.entry {
                Some((p, _, _)) if p == ptr => None,
                other => other,
            },
        }
    }

    /// The cache after a store whose open began at `epoch`.
    pub open spec fn stored(
        self,
        epoch: u64,
        ptr: usize,
        index: u8,
        value: T,
        still_current: bool,
    ) -> CacheModel<T> {
        if self.epoch == epoch && still_current {
            CacheModel { epoch: self.epoch, entry: Some((ptr, index, value)) }
        } else {
            self
        }
    }
}

/// The epoch after `epoch`; the count starts over when it no longer fits.
pub open spec fn next_epoch(epoch: u64) -> u64 {
    if epoch == u64::MAX {
        0
    } else {
        (epoch + 1) as u64
    }
}

impl<T> View for EpochGuarded<T> {
    type V = CacheModel<T>;

    open spec fn view(&self) -> CacheModel<T> {
        CacheModel { epoch: self.epoch, entry: self.entry }
    }
}

impl<T: Clone> EpochGuarded<T> {
    /// An empty cache.
    pub fn new() -> (r: Self)
        ensures
            r@.epoch == 0,
            r@.entry is None,
    {
        EpochGuarded { epoch: 0, entry: None }
    }

    /// A copy of the handle for this channel and index.
    pub fn get(&self, ptr: usize, index: u8) -> (r: Option<T>)
        ensures
            r is Some <==> self@.lookup(ptr, index) is Some,
            r matches Some(value) ==> cloned(self@.lookup(ptr, index)->0, value),
    {
        match &self.entry {
            Some((entry_ptr, entry_index, value)) => if *entry_ptr == ptr && *entry_index == index {
                Some(value.clone())
            } else {
                None
            },
            None => None,
        }
    }

    /// Store `value`, unless a clear ran since `epoch` was read or
    /// `still_current` reports that the channel is no longer published. The
    /// question is asked only when the epoch still holds.
    pub fn store(
        &mut self,
        epoch: u64,
        ptr: usize,
        index: u8,
        value: T,
        still_current: impl FnOnce() -> bool,
    )
        requires
            still_current.requires(()),
        ensures
            old(self)@.epoch != epoch ==> final(self)@ == old(self)@,
            old(self)@.epoch == epoch ==> exists|current: bool|
                still_current.ensures((), current) && final(self)@ == #[trigger] old(self)@.stored(
                    epoch,
                    ptr,
                    index,
                    value,
                    current,
                ),
    {
        if self.epoch == epoch {
            let current = still_current();
            let ghost before = self@;
            if current {
                self.entry = Some((ptr, index, value));
            }
            proof {
                assert(self@ == before.stored(epoch, ptr, index, value, current));
            }
        }
    }

    /// Drop the handle and outdate every open that is under way.
    pub fn clear(&mut self)
        ensures
            final(self)@ == old(self)@.cleared(),
    {
        self.epoch = self.epoch.wrapping_add(1);
        self.entry = None;
    }

    /// Drop the handle if it belongs to `ptr`, and outdate every open that is
    /// under way even if it does not.
    pub fn clear_for(&mut self, ptr: usize)
        ensures
            final(self)@ == old(self)@.retired(ptr),
    {
        self.epoch = self.epoch.wrapping_add(1);
        let owned = match &self.entry {
            Some((entry_ptr, _, _)) => *entry_ptr == ptr,
            None => false,
        };
        if owned {
            self.entry = None;
        }
    }
}

/// A store whose open began before a clear never lands, whichever channel was
/// retired and whatever the registry says.
pub proof fn a_store_started_before_a_clear_never_lands<T>(
    cache: CacheModel<T>,
    retired: usize,
    ptr: usize,
    index: u8,
    value: T,
    still_current: bool,
)
    ensures
        cache.retired(retired).stored(cache.epoch, ptr, index, value, still_current)
            == cache.retired(retired),
        cache.cleared().stored(cache.epoch, ptr, index, value, still_current) == cache.cleared(),
{
}

/// A retired channel is not in the cache, and a store for a channel that is no
/// longer published does not put it back.
pub proof fn a_retired_channel_is_never_pinned_again<T>(
    cache: CacheModel<T>,
    ptr: usize,
    index: u8,
    other: u8,
    value: T,
)
    ensures
        cache.retired(ptr).lookup(ptr, other) is None,
        cache.retired(ptr).stored(cache.retired(ptr).epoch, ptr, index, value, false).lookup(
            ptr,
            other,
        ) is None,
{
}

/// Retiring one channel keeps the handle of another.
pub proof fn retiring_one_channel_keeps_another<T>(
    cache: CacheModel<T>,
    retired: usize,
    ptr: usize,
    index: u8,
)
    requires
        retired != ptr,
    ensures
        cache.retired(retired).lookup(ptr, index) == cache.lookup(ptr, index),
{
}

/// What was stored with a current epoch is found again, and nothing else is.
pub proof fn a_store_with_a_current_epoch_is_found<T>(
    cache: CacheModel<T>,
    ptr: usize,
    index: u8,
    value: T,
    other_ptr: usize,
    other_index: u8,
)
    ensures
        cache.stored(cache.epoch, ptr, index, value, true).lookup(ptr, index) == Some(value),
        (other_ptr, other_index) != (ptr, index) ==> cache.stored(
            cache.epoch,
            ptr,
            index,
            value,
            true,
        ).lookup(other_ptr, other_index) is None,
{
}

/// The epoch to hand to the store that follows an open.
pub fn cache_epoch<T: Clone>(cache: &EpochGuarded<T>) -> (r: u64)
    ensures
        r == cache@.epoch,
{
    cache.epoch
}

/// Drop the cached handle, and with it the channel that it pins.
pub fn clear_cached_feature<T: Clone>(cache: &mut EpochGuarded<T>)
    ensures
        final(cache)@ == old(cache)@.cleared(),
{
    cache.clear();
}

/// Drop the cached handle whenever a route cannot be resolved: a node is
/// reopened only once nothing holds its old channel.
pub fn clear_haptic_feature_cache<T: Clone>(cache: &mut EpochGuarded<T>)
    ensures
        final(cache)@ == old(cache)@.cleared(),
{
    clear_cached_feature(cache);
}

/// Drop the cached handle if it belongs to the channel that is being retired.
pub fn clear_haptic_feature_cache_for<T: Clone>(cache: &mut EpochGuarded<T>, channel: usize)
    ensures
        final(cache)@ == old(cache)@.retired(channel),
{
    cache.clear_for(channel);
}

/// Intensity that a silent haptic engine is given.
pub const FALLBACK_INTENSITY: u8 = 25;

/// The intensity to write so that the haptic engine is enabled and not silent,
/// or `None` when it already is.
pub open spec fn spec_arm_repair(enabled: bool, intensity: u8) -> Option<u8> {
    if intensity == 0 {
        Some(FALLBACK_INTENSITY)
    } else if !enabled {
        Some(intensity)
    } else {
        None
    }
}

/// Decide the repair that arms the haptic engine.
pub fn arm_repair(enabled: bool, intensity: u8) -> (r: Option<u8>)
    ensures
        r == spec_arm_repair(enabled, intensity),
{
    let target: u8 = if intensity == 0 {
        FALLBACK_INTENSITY
    } else {
        intensity
    };
    if enabled && target == intensity {
        None
    } else {
        Some(target)
    }
}

/// An engine that was repaired needs no further repair, and is never silent.
pub proof fn a_repair_arms_the_engine(enabled: bool, intensity: u8)
    ensures
        spec_arm_repair(enabled, intensity) matches Some(written) ==> written != 0
            && spec_arm_repair(true, written) is None,
        spec_arm_repair(enabled, intensity) is None ==> enabled && intensity != 0,
{
}

/// What a play does next.
#[derive(Clone, Copy, Debug, PartialEq, Eq, Structural)]
pub enum PlayStep {
    /// Play through the cached handle, then call [`after_cached_play`].
    PlayCached,
    /// Open the feature, then play through the new handle, then call
    /// [`after_fresh_play`] with this epoch.
    Open { epoch: u64 },
    /// The waveform played.
    Played,
}

/// Begin to play on a channel: through the cached handle when it belongs to
/// the channel, else through a fresh open.
pub fn begin_play<T: Clone>(cache: &EpochGuarded<T>, ptr: usize, index: u8) -> (r: PlayStep)
    ensures
        r == (if cache@.lookup(ptr, index) is Some {
            PlayStep::PlayCached
        } else {
            PlayStep::Open { epoch: cache@.epoch }
        }),
{
    if cache.get(ptr, index).is_some() {
        PlayStep::PlayCached
    } else {
        PlayStep::Open { epoch: cache.epoch }
    }
}

/// The play through the cached handle ended. A failure drops the handle and
/// tries once more through a fresh open.
pub fn after_cached_play<T: Clone>(cache: &mut EpochGuarded<T>, played: bool) -> (r: PlayStep)
    ensures
        played ==> r is Played && final(cache)@ == old(cache)@,
        !played ==> final(cache)@ == old(cache)@.cleared() && r == (PlayStep::Open {
            epoch: final(cache)@.epoch,
        }),
{
    if played {
        PlayStep::Played
    } else {
        clear_cached_feature(cache);
        PlayStep::Open { epoch: cache_epoch(cache) }
    }
}

/// The play through a fresh handle ended. Only a handle that played is kept.
pub fn after_fresh_play<T: Clone>(
    cache: &mut EpochGuarded<T>,
    epoch: u64,
    ptr: usize,
    index: u8,
    handle: T,
    played: bool,
    still_current: impl FnOnce() -> bool,
)
    requires
        still_current.requires(()),
    ensures
        !played || old(cache)@.epoch != epoch ==> final(cache)@ == old(cache)@,
        played && old(cache)@.epoch == epoch ==> exists|current: bool|
            still_current.ensures((), current) && final(cache)@ == #[trigger] old(cache)@.stored(
                epoch,
                ptr,
                index,
                handle,
                current,
            ),
{
    if played {
        cache.store(epoch, ptr, index, handle, still_current);
    }
}

/// A handle is found for just the channel and index that it was opened for.
pub proof fn a_handle_belongs_to_its_channel<T>(cache: CacheModel<T>, ptr: usize, index: u8)
    ensures
        cache.lookup(ptr, index) is Some <==> cache.entry is Some && (cache.entry matches Some((p, i, _))
            && p == ptr && i == index),
        cache.entry matches Some((p, i, value)) ==> cache.lookup(p, i) == Some(value),
        cache.entry is None ==> cache.lookup(ptr, index) is None,
{
}

/// A clear leaves nothing and outdates every open that began before it, and so does
/// the end of a channel for what was opened on it. A store that is not current
/// changes nothing.
pub proof fn a_clear_outdates_what_began_before<T>(
    cache: CacheModel<T>,
    ptr: usize,
    index: u8,
    value: T,
    epoch: u64,
)
    ensures
        cache.cleared().entry is None,
        cache.cleared().epoch != cache.epoch,
        cache.retired(ptr).epoch != cache.epoch,
        cache.epoch < u64::MAX ==> cache.cleared().epoch == cache.epoch + 1 && cache.retired(
            ptr,
        ).epoch == cache.epoch + 1,
        cache.entry matches Some((p, _, _)) ==> (cache.retired(ptr).entry is None <==> p == ptr),
        epoch != cache.epoch ==> cache.stored(epoch, ptr, index, value, true) == cache,
        cache.stored(epoch, ptr, index, value, false) == cache,
        cache.stored(cache.epoch, ptr, index, value, true).epoch == cache.epoch,
{
}

/// A silent engine is given a strength that is felt, one that is off the strength it
/// has, and one that works is left alone.
pub proof fn an_engine_is_repaired_as_little_as_needed(enabled: bool, intensity: u8)
    ensures
        intensity == 0 ==> spec_arm_repair(enabled, intensity) == Some(25u8),
        intensity != 0 && !enabled ==> spec_arm_repair(enabled, intensity) == Some(intensity),
        intensity != 0 && enabled ==> spec_arm_repair(enabled, intensity) is None,
{
}

} // verus!
