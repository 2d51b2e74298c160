//! Values that are read from devices lazily, one by one.

use vstd::prelude::*;

use crate::config::SmartShiftStatus;
use crate::data::Data;
use crate::device::DeviceKey;
use crate::keyed::Table;

verus! {

/// How often a read is tried before the device counts as failed.
pub const LOAD_MAX_ATTEMPTS: u8 = 3;

/// Why a device could not be read or written.
#[derive(Clone, Debug, PartialEq, Eq)]
pub enum WriteError {
    /// The device does not have the feature; asking again changes nothing.
    FeatureUnsupported { message: String },
    /// Anything else, such as a timeout or a busy device.
    Transient { message: String },
}

/// The text of an error.
pub open spec fn error_text(error: WriteError) -> Seq<char> {
    match error {
        WriteError::FeatureUnsupported { message } => message@,
        WriteError::Transient { message } => message@,
    }
}

impl WriteError {
    /// The text of this error.
    pub fn message(&self) -> (r: String)
        ensures
            r@ == error_text(*self),
    {
        match self {
            WriteError::FeatureUnsupported { message } => message.clone(),
            WriteError::Transient { message } => message.clone(),
        }
    }
}

/// What is known of a value that is read from a device.
#[derive(Clone, Debug, PartialEq, Eq)]
pub enum Load<T> {
    /// It was not asked for yet.
    Unknown,
    /// A read is under way.
    Loading,
    /// The device reported it.
    Ready(T),
    /// Reading failed too often. The device may well have it, and is asked again
    /// when it is selected again.
    Failed(String),
    /// The device does not have it.
    Unsupported(String),
}

/// What a [`Load`] holds.
pub ghost enum LoadModel<X> {
    Unknown,
    Loading,
    Ready(X),
    Failed(Seq<char>),
    Unsupported(Seq<char>),
}

impl<T: DeepView> DeepView for Load<T> {
    type V = LoadModel<T::V>;

    open spec fn deep_view(&self) -> LoadModel<T::V> {
        match self {
            Load::Unknown => LoadModel::Unknown,
            Load::Loading => LoadModel::Loading,
            Load::Ready(x) => LoadModel::Ready(x.deep_view()),
            Load::Failed(m) => LoadModel::Failed(m@),
            Load::Unsupported(m) => LoadModel::Unsupported(m@),
        }
    }
}

impl<T: Data> Data for Load<T> {
    fn duplicate(&self) -> (r: Self) {
        match self {
            Load::Unknown => Load::Unknown,
            Load::Loading => Load::Loading,
            Load::Ready(x) => Load::Ready(x.duplicate()),
            Load::Failed(m) => Load::Failed(m.clone()),
            Load::Unsupported(m) => Load::Unsupported(m.clone()),
        }
    }

    fn same(&self, other: &Self) -> (r: bool) {
        match (self, other) {
            (Load::Unknown, Load::Unknown) => true,
            (Load::Loading, Load::Loading) => true,
            (Load::Ready(x), Load::Ready(y)) => x.same(y),
            (Load::Failed(m), Load::Failed(n)) => *m == *n,
            (Load::Unsupported(m), Load::Unsupported(n)) => *m == *n,
            _ => false,
        }
    }
}

/// The values of all devices, and how often each read has failed in a row.
#[derive(Debug)]
pub struct LazyDeviceData<T: Data> {
    pub by_device: Table<DeviceKey, Load<T>>,
    pub attempts: Table<DeviceKey, u8>,
}

/// What a [`LazyDeviceData`] holds.
pub ghost struct LazyModel<X> {
    pub by_device: Map<Seq<char>, LoadModel<X>>,
    pub attempts: Map<Seq<char>, u8>,
}

impl<T: Data> DeepView for LazyDeviceData<T> {
    type V = LazyModel<T::V>;

    open spec fn deep_view(&self) -> LazyModel<T::V> {
        LazyModel {
            by_device: self.by_device.deep_view(),
            attempts: self.attempts.deep_view(),
        }
    }
}

/// What is recorded for a device.
pub open spec fn load_of<X>(m: LazyModel<X>, key: Seq<char>) -> LoadModel<X> {
    if m.by_device.contains_key(key) {
        m.by_device[key]
    } else {
        LoadModel::Unknown
    }
}

/// Everything on a device dropped.
pub open spec fn forgotten<X>(m: LazyModel<X>, key: Seq<char>) -> LazyModel<X> {
    LazyModel { by_device: m.by_device.remove(key), attempts: m.attempts.remove(key) }
}

/// How often reads of a device have failed in a row.
pub open spec fn attempts_of<X>(m: LazyModel<X>, key: Seq<char>) -> int {
    if m.attempts.contains_key(key) {
        m.attempts[key] as int
    } else {
        0
    }
}

/// How a read ended.
pub ghost enum ReadEnd<X> {
    /// With a value.
    Value(X),
    /// With an error that asking again does not change.
    Permanent(Seq<char>),
    /// With any other error.
    Transient(Seq<char>),
}

/// What a read that ended leaves recorded.
///
/// A result for a route that the device no longer has says nothing; where the
/// device is still there, it only stops counting as being read.
pub open spec fn stored<X>(
    m: LazyModel<X>,
    key: Seq<char>,
    end: ReadEnd<X>,
    matches_route: bool,
    still_present: bool,
) -> LazyModel<X> {
    if !matches_route {
        if still_present {
            LazyModel { by_device: m.by_device.remove(key), ..m }
        } else {
            m
        }
    } else {
        match end {
            ReadEnd::Value(value) => LazyModel {
                by_device: m.by_device.insert(key, LoadModel::Ready(value)),
                attempts: m.attempts.remove(key),
            },
            ReadEnd::Permanent(message) => LazyModel {
                by_device: m.by_device.insert(key, LoadModel::Unsupported(message)),
                attempts: m.attempts.remove(key),
            },
            ReadEnd::Transient(message) => if attempts_of(m, key) + 1 < LOAD_MAX_ATTEMPTS {
                LazyModel {
                    by_device: m.by_device.remove(key),
                    attempts: m.attempts.insert(key, (attempts_of(m, key) + 1) as u8),
                }
            } else {
                LazyModel {
                    by_device: m.by_device.insert(key, LoadModel::Failed(message)),
                    attempts: m.attempts.remove(key),
                }
            },
        }
    }
}

/// How a result ends a read.
pub open spec fn read_end<T: Data>(result: Result<T, WriteError>, permanent: bool) -> ReadEnd<T::V> {
    match result {
        Ok(value) => ReadEnd::Value(value.deep_view()),
        Err(error) => if permanent {
            ReadEnd::Permanent(error_text(error))
        } else {
            ReadEnd::Transient(error_text(error))
        },
    }
}

impl<T: Data> LazyDeviceData<T> {
    /// Nothing read of any device.
    pub fn new() -> (r: Self)
        ensures
            r.deep_view() == (LazyModel::<T::V> {
                by_device: Map::empty(),
                attempts: Map::empty(),
            }),
    {
        LazyDeviceData { by_device: Table::new(), attempts: Table::new() }
    }

    /// What is recorded for a device, and [`Load::Unknown`] where nothing is.
    pub fn status(&self, key: &DeviceKey) -> (r: Load<T>)
        ensures
            r.deep_view() == load_of(self.deep_view(), key.deep_view()),
    {
        match self.by_device.get(key) {
            Some(load) => load.duplicate(),
            None => Load::Unknown,
        }
    }

    /// What is recorded for a device, if anything is.
    pub fn get(&self, key: &DeviceKey) -> (r: Option<&Load<T>>)
        ensures
            match r {
                Some(load) => self.deep_view().by_device.contains_key(key.deep_view())
                    && load.deep_view() == self.deep_view().by_device[key.deep_view()],
                None => !self.deep_view().by_device.contains_key(key.deep_view()),
            },
    {
        self.by_device.get(key)
    }

    /// Whether a device still has to be read.
    pub fn unqueried(&self, key: &DeviceKey) -> (r: bool)
        ensures
            r == !self.deep_view().by_device.contains_key(key.deep_view()),
    {
        !self.by_device.contains(key)
    }

    /// Record that a device is being read.
    pub fn mark_loading(&mut self, key: &DeviceKey)
        ensures
            final(self).deep_view() == (LazyModel {
                by_device: old(self).deep_view().by_device.insert(
                    key.deep_view(),
                    LoadModel::Loading,
                ),
                ..old(self).deep_view()
            }),
    {
        self.by_device.insert(key.duplicate(), Load::Loading);
    }

    /// Record that a read vanished without a result, so that the device can be
    /// asked again.
    pub fn clear_loading(&mut self, key: &DeviceKey)
        ensures
            final(self).deep_view() == (if load_of(old(self).deep_view(), key.deep_view())
                is Loading {
                LazyModel {
                    by_device: old(self).deep_view().by_device.remove(key.deep_view()),
                    ..old(self).deep_view()
                }
            } else {
                old(self).deep_view()
            }),
    {
        let loading = match self.by_device.get(key) {
            Some(load) => matches!(load, Load::Loading),
            None => false,
        };
        if loading {
            self.by_device.remove(key);
        }
    }

    /// Forget a device and its failures, so that it is read anew.
    pub fn retry(&mut self, key: &DeviceKey)
        ensures
            final(self).deep_view() == forgotten(old(self).deep_view(), key.deep_view()),
    {
        self.by_device.remove(key);
        self.attempts.remove(key);
    }

    /// Forget a device that is gone or on another route.
    pub fn remove(&mut self, key: &DeviceKey)
        ensures
            final(self).deep_view() == forgotten(old(self).deep_view(), key.deep_view()),
    {
        self.by_device.remove(key);
        self.attempts.remove(key);
    }

    /// Forget every device that is not there.
    pub fn retain_present(&mut self, present: &Vec<DeviceKey>)
        ensures
            final(self).deep_view() == (LazyModel {
                by_device: old(self).deep_view().by_device.restrict(present.deep_view().to_set()),
                attempts: old(self).deep_view().attempts.restrict(present.deep_view().to_set()),
            }),
    {
        self.by_device.keep_only(present);
        self.attempts.keep_only(present);
    }

    /// Record a value without a read, such as one that was just written.
    pub fn set_ready(&mut self, key: DeviceKey, value: T)
        ensures
            final(self).deep_view() == (LazyModel {
                by_device: old(self).deep_view().by_device.insert(
                    key.deep_view(),
                    LoadModel::Ready(value.deep_view()),
                ),
                ..old(self).deep_view()
            }),
    {
        self.by_device.insert(key, Load::Ready(value));
    }

    /// Record how a read ended, handing back the value if it is now known.
    ///
    /// `permanent` says whether an error cannot change, `matches_route` whether
    /// the device is still on the route that was read, and `still_present`
    /// whether it is there at all.
    pub fn store(
        &mut self,
        key: DeviceKey,
        result: Result<T, WriteError>,
        permanent: bool,
        matches_route: bool,
        still_present: bool,
    ) -> (r: Option<T>)
        ensures
            final(self).deep_view() == stored(
                old(self).deep_view(),
                key.deep_view(),
                read_end(result, permanent),
                matches_route,
                still_present,
            ),
            r.deep_view() == match result {
                Ok(value) => if matches_route {
                    Some(value.deep_view())
                } else {
                    None
                },
                Err(_) => None,
            },
    {
        if !matches_route {
            if still_present {
                self.by_device.remove(&key);
            }
            return None;
        }
        match result {
            Ok(value) => {
                let resolved = value.duplicate();
                self.attempts.remove(&key);
                self.by_device.insert(key, Load::Ready(value));
                Some(resolved)
            },
            Err(error) => {
                let message = error.message();
                if permanent {
                    self.attempts.remove(&key);
                    self.by_device.insert(key, Load::Unsupported(message));
                    return None;
                }
                let before: u8 = match self.attempts.get(&key) {
                    Some(n) => *n,
                    None => 0,
                };
                if before < LOAD_MAX_ATTEMPTS - 1 {
                    self.attempts.insert(key.duplicate(), before + 1);
                    self.by_device.remove(&key);
                } else {
                    self.attempts.remove(&key);
                    self.by_device.insert(key, Load::Failed(message));
                }
                None
            },
        }
    }
}

/// The result of confirming a write by reading the value back.
#[derive(Clone, Copy, Debug, PartialEq, Eq, Structural)]
pub enum SmartShiftWriteStatus {
    /// The written value is shown while the confirming read runs.
    Applying {
        /// The written value.
        expected: SmartShiftStatus,
        /// Tells the replies to older writes apart.
        write_id: u64,
    },
    /// The device returned what was written.
    Confirmed,
    /// The read failed, or returned something else.
    Failed,
}

impl DeepView for SmartShiftWriteStatus {
    type V = SmartShiftWriteStatus;

    open spec fn deep_view(&self) -> SmartShiftWriteStatus {
        *self
    }
}

impl Data for SmartShiftWriteStatus {
    fn duplicate(&self) -> (r: Self) {
        *self
    }

    fn same(&self, other: &Self) -> (r: bool) {
        *self == *other
    }
}

/// Whether an error cannot change by asking again.
pub fn smartshift_error_is_permanent(error: &WriteError) -> (r: bool)
    ensures
        r == (*error is FeatureUnsupported),
{
    matches!(error, WriteError::FeatureUnsupported { .. })
}

/// What a reading says of a write, if it says anything yet.
pub open spec fn write_outcome(
    expected: SmartShiftStatus,
    load: Option<LoadModel<SmartShiftStatus>>,
) -> Option<SmartShiftWriteStatus> {
    match load {
        Some(LoadModel::Ready(actual)) => if actual == expected {
            Some(SmartShiftWriteStatus::Confirmed)
        } else {
            Some(SmartShiftWriteStatus::Failed)
        },
        Some(LoadModel::Failed(_)) => Some(SmartShiftWriteStatus::Failed),
        Some(LoadModel::Unsupported(_)) => Some(SmartShiftWriteStatus::Failed),
        Some(LoadModel::Unknown) => None,
        Some(LoadModel::Loading) => None,
        None => None,
    }
}

/// What a reading says of a write, if it says anything yet.
pub fn smartshift_write_outcome(
    expected: SmartShiftStatus,
    load: Option<&Load<SmartShiftStatus>>,
) -> (r: Option<SmartShiftWriteStatus>)
    ensures
        r == write_outcome(expected, load.deep_view()),
{
    match load {
        Some(Load::Ready(actual)) => if *actual == expected {
            Some(SmartShiftWriteStatus::Confirmed)
        } else {
            Some(SmartShiftWriteStatus::Failed)
        },
        Some(Load::Failed(_)) => Some(SmartShiftWriteStatus::Failed),
        Some(Load::Unsupported(_)) => Some(SmartShiftWriteStatus::Failed),
        Some(Load::Unknown) => None,
        Some(Load::Loading) => None,
        None => None,
    }
}

/// Whether a reply belongs to what is going on: a confirming read to the write
/// that is being applied, any other read to no write at all.
pub open spec fn read_is_current(
    read_id: Option<u64>,
    write_status: Option<SmartShiftWriteStatus>,
) -> bool {
    match write_status {
        Some(SmartShiftWriteStatus::Applying { expected, write_id }) => read_id == Some(write_id),
        _ => read_id is None,
    }
}

/// Whether a reply belongs to what is going on.
pub fn smartshift_read_is_current(
    read_id: Option<u64>,
    write_status: Option<&SmartShiftWriteStatus>,
) -> (r: bool)
    ensures
        r == read_is_current(read_id, write_status.deep_view()),
{
    match (read_id, write_status) {
        (Some(read_id), Some(SmartShiftWriteStatus::Applying { write_id, .. })) => read_id
            == *write_id,
        (None, Some(SmartShiftWriteStatus::Applying { .. })) => false,
        (Some(_), _) => false,
        (None, _) => true,
    }
}

/// Three transient failures in a row, and no fewer, settle on failed; until
/// then the device counts as not asked.
pub proof fn transient_failures_exhaust_the_budget<X>(
    m: LazyModel<X>,
    key: Seq<char>,
    first: Seq<char>,
    second: Seq<char>,
    third: Seq<char>,
)
    requires
        !m.attempts.contains_key(key),
    ensures
        ({
            let one = stored(m, key, ReadEnd::Transient(first), true, true);
            let two = stored(one, key, ReadEnd::Transient(second), true, true);
            let three = stored(two, key, ReadEnd::Transient(third), true, true);
            &&& load_of(one, key) is Unknown
            &&& load_of(two, key) is Unknown
            &&& load_of(three, key) == LoadModel::<X>::Failed(third)
            &&& !three.attempts.contains_key(key)
        }),
{
}

/// A value or a lasting refusal clears the count of failures.
pub proof fn an_answer_clears_the_failures<X>(
    m: LazyModel<X>,
    key: Seq<char>,
    end: ReadEnd<X>,
    still_present: bool,
)
    requires
        !(end is Transient),
    ensures
        attempts_of(stored(m, key, end, true, still_present), key) == 0,
        !(load_of(stored(m, key, end, true, still_present), key) is Loading),
{
}

/// A result for a route that the device has left never shows as a value, and
/// never touches another device.
pub proof fn a_stale_result_shows_nothing<X>(
    m: LazyModel<X>,
    key: Seq<char>,
    other: Seq<char>,
    end: ReadEnd<X>,
    still_present: bool,
)
    requires
        other != key,
    ensures
        ({
            let after = stored(m, key, end, false, still_present);
            &&& load_of(after, key) is Ready ==> load_of(after, key) == load_of(m, key)
            &&& load_of(after, other) == load_of(m, other)
            &&& after.attempts == m.attempts
        }),
{
}

/// A read that ends while the device is still on its route leaves what it found: a
/// value as that value, a lasting error as a feature that is missing, each with
/// its own text.
pub proof fn an_answer_is_recorded_as_it_is<X>(
    m: LazyModel<X>,
    key: Seq<char>,
    value: X,
    message: Seq<char>,
    still_present: bool,
)
    ensures
        load_of(stored(m, key, ReadEnd::Value(value), true, still_present), key)
            == LoadModel::Ready(value),
        load_of(stored(m, key, ReadEnd::Permanent(message), true, still_present), key)
            == LoadModel::<X>::Unsupported(message),
{
}

/// Another failure counts one more, and the device is asked again, until it has
/// failed three times in a row; then it counts as failed with the last error. What
/// is recorded of other devices stays, whatever a read comes to.
pub proof fn failures_are_counted_one_by_one<X>(
    m: LazyModel<X>,
    key: Seq<char>,
    message: Seq<char>,
    end: ReadEnd<X>,
    matches_route: bool,
    still_present: bool,
    other: Seq<char>,
)
    requires
        other != key,
    ensures
        ({
            let after = stored(m, key, ReadEnd::Transient(message), true, still_present);
            let before = if m.attempts.contains_key(key) {
                m.attempts[key] as int
            } else {
                0
            };
            &&& before < 2 ==> {
                &&& !after.by_device.contains_key(key)
                &&& after.attempts.contains_key(key)
                &&& after.attempts[key] == before + 1
            }
            &&& before >= 2 ==> {
                &&& after.by_device.contains_key(key)
                &&& after.by_device[key] == LoadModel::<X>::Failed(message)
                &&& !after.attempts.contains_key(key)
            }
            &&& stored(m, key, end, matches_route, still_present).by_device.remove(key)
                == m.by_device.remove(key)
            &&& stored(m, key, end, matches_route, still_present).attempts.remove(key)
                == m.attempts.remove(key)
        }),
{
    let after = stored(m, key, end, matches_route, still_present);
    assert(after.by_device.remove(key) =~= m.by_device.remove(key));
    assert(after.attempts.remove(key) =~= m.attempts.remove(key));
}

/// A result over a route that the device has left leaves it to be asked again, and
/// a result of a device that is gone leaves everything.
pub proof fn a_device_that_moved_is_asked_again<X>(
    m: LazyModel<X>,
    key: Seq<char>,
    end: ReadEnd<X>,
)
    ensures
        !stored(m, key, end, false, true).by_device.contains_key(key),
        stored(m, key, end, false, false) == m,
{
}

/// What is forgotten of a device is everything, and nothing of another.
pub proof fn one_device_is_forgotten<X>(m: LazyModel<X>, key: Seq<char>, other: Seq<char>)
    ensures
        !forgotten(m, key).by_device.contains_key(key),
        !forgotten(m, key).attempts.contains_key(key),
        other != key ==> load_of(forgotten(m, key), other) == load_of(m, other),
        other != key ==> attempts_of(forgotten(m, key), other) == attempts_of(m, other),
        !m.by_device.contains_key(key) ==> load_of(m, key) is Unknown,
        m.by_device.contains_key(key) ==> load_of(m, key) == m.by_device[key],
{
}

/// A result ends a read with its value or with its error, which lasts exactly if it
/// is said to.
pub proof fn a_read_ends_as_its_result_says<T: Data>(
    result: Result<T, WriteError>,
    permanent: bool,
)
    ensures
        read_end(result, permanent) is Value <==> result is Ok,
        result matches Ok(value) ==> read_end(result, permanent) == ReadEnd::Value(
            value.deep_view(),
        ),
        result is Err ==> (read_end(result, permanent) is Permanent <==> permanent),
        result matches Err(WriteError::FeatureUnsupported { message }) ==> read_end(result, true)
            == ReadEnd::<T::V>::Permanent(message@),
        result matches Err(WriteError::Transient { message }) ==> read_end(result, false)
            == ReadEnd::<T::V>::Transient(message@),
{
}

/// A write is confirmed by just the value that was written. Any other value, and
/// any final failure, says that it failed; while nothing is known, nothing is said.
pub proof fn a_write_is_confirmed_by_its_value(
    expected: SmartShiftStatus,
    load: Option<LoadModel<SmartShiftStatus>>,
)
    ensures
        write_outcome(expected, load) == Some(SmartShiftWriteStatus::Confirmed) <==> load == Some(
            LoadModel::Ready(expected),
        ),
        write_outcome(expected, load) is None <==> (load is None || load == Some(
            LoadModel::<SmartShiftStatus>::Unknown,
        ) || load == Some(LoadModel::<SmartShiftStatus>::Loading)),
        write_outcome(expected, load) is Some ==> write_outcome(expected, load) == Some(
            SmartShiftWriteStatus::Confirmed,
        ) || write_outcome(expected, load) == Some(SmartShiftWriteStatus::Failed),
{
}

/// While a write is being applied, only the read that confirms it counts; else only
/// a read that confirms no write does.
pub proof fn a_reply_counts_for_its_own_write(
    read_id: Option<u64>,
    expected: SmartShiftStatus,
    write_id: u64,
)
    ensures
        read_is_current(read_id, Some(SmartShiftWriteStatus::Applying { expected, write_id }))
            <==> read_id == Some(write_id),
        read_is_current(read_id, None) <==> read_id is None,
        read_is_current(read_id, Some(SmartShiftWriteStatus::Confirmed)) <==> read_id is None,
        read_is_current(read_id, Some(SmartShiftWriteStatus::Failed)) <==> read_id is None,
{
}

} // verus!
