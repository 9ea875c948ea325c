//! The counter store: device registry, per-device message counters and the
//! append-only table of encrypted sensor records.
//!
//! The store is a value. Its tables are described by [`Store`], a
//! mathematical model to which every operation is held; persisting the
//! tables is left to whoever owns the value.

use crate::error::{LCoreError, StorageFault};
use crate::text::{
    lemma_lex_less_irreflexive, lemma_lex_less_transitive, lemma_lex_not_after_then_less, lex_less,
    str_eq, str_less, text_less,
};
use vstd::prelude::*;
use vstd::slice::slice_to_vec;
use vstd::utf8::encode_utf8;

verus! {

/// A registered device.
#[derive(Clone, Debug)]
pub struct DeviceRow {
    pub id: String,
    pub did_document: String,
    pub public_key: String,
}

/// The message counter of one device.
#[derive(Clone, Debug)]
pub struct CounterRow {
    pub device_id: String,
    pub counter: u64,
}

/// One stored sensor record.
#[derive(Clone, Debug)]
pub struct SensorDataRow {
    pub id: i32,
    pub device_id: String,
    pub encrypted_payload: Vec<u8>,
    pub stage1_key_hash: String,
    pub stage2_key_hash: String,
    pub counter: u64,
    pub timestamp: String,
}

/// One stored analytics value. The value is kept as the bit pattern of the
/// double-precision number it stands for.
#[derive(Clone, Debug)]
pub struct AnalyticsRow {
    pub id: i32,
    pub device_id: String,
    pub metric_type: String,
    pub value_bits: u64,
    pub time_window: String,
    pub calculated_at: String,
}

/// What the registry holds for a device.
pub struct DeviceRecord {
    pub did_document: Seq<char>,
    pub public_key: Seq<char>,
}

/// A sensor record as a mathematical value.
pub struct SensorRecord {
    pub id: int,
    pub device_id: Seq<char>,
    pub encrypted_payload: Seq<u8>,
    pub stage1_key_hash: Seq<char>,
    pub stage2_key_hash: Seq<char>,
    pub counter: u64,
    pub timestamp: Seq<char>,
}

/// An analytics value as a mathematical value.
pub struct AnalyticsRecord {
    pub id: int,
    pub device_id: Seq<char>,
    pub metric_type: Seq<char>,
    pub value_bits: u64,
    pub time_window: Seq<char>,
    pub calculated_at: Seq<char>,
}

/// The tables of the store: devices and counters by identifier, records and
/// analytics in insertion order.
pub struct Store {
    pub devices: Map<Seq<char>, DeviceRecord>,
    pub counters: Map<Seq<char>, u64>,
    pub sensor_data: Seq<SensorRecord>,
    pub analytics: Seq<AnalyticsRecord>,
}

impl View for AnalyticsRow {
    type V = AnalyticsRecord;

    open spec fn view(&self) -> AnalyticsRecord {
        AnalyticsRecord {
            id: self.id as int,
            device_id: self.device_id@,
            metric_type: self.metric_type@,
            value_bits: self.value_bits,
            time_window: self.time_window@,
            calculated_at: self.calculated_at@,
        }
    }
}

impl View for DeviceRow {
    type V = DeviceRecord;

    open spec fn view(&self) -> DeviceRecord {
        DeviceRecord { did_document: self.did_document@, public_key: self.public_key@ }
    }
}

impl View for SensorDataRow {
    type V = SensorRecord;

    open spec fn view(&self) -> SensorRecord {
        SensorRecord {
            id: self.id as int,
            device_id: self.device_id@,
            encrypted_payload: self.encrypted_payload@,
            stage1_key_hash: self.stage1_key_hash@,
            stage2_key_hash: self.stage2_key_hash@,
            counter: self.counter,
            timestamp: self.timestamp@,
        }
    }
}

impl Store {
    /// The store with no device, no counter and no record.
    pub open spec fn empty() -> Store {
        Store {
            devices: Map::empty(),
            counters: Map::empty(),
            sensor_data: Seq::empty(),
            analytics: Seq::empty(),
        }
    }

    /// The last counter value allocated to `device_id`; 0 before the first.
    pub open spec fn counter(self, device_id: Seq<char>) -> u64 {
        if self.counters.contains_key(device_id) {
            self.counters[device_id]
        } else {
            0
        }
    }

    /// The store after registering a device: a device already present keeps
    /// its document and key, a counter already present keeps its value; what
    /// is missing is created, the counter at 0.
    pub open spec fn register(
        self,
        device_id: Seq<char>,
        did_document: Seq<char>,
        public_key: Seq<char>,
    ) -> Store {
        Store {
            devices: if self.devices.contains_key(device_id) {
                self.devices
            } else {
                self.devices.insert(device_id, DeviceRecord { did_document, public_key })
            },
            counters: if self.counters.contains_key(device_id) {
                self.counters
            } else {
                self.counters.insert(device_id, 0)
            },
            sensor_data: self.sensor_data,
            analytics: self.analytics,
        }
    }

    /// The store after allocating the next counter value of `device_id`.
    pub open spec fn allocate(self, device_id: Seq<char>) -> Store
        recommends
            self.counter(device_id) < u64::MAX,
    {
        Store {
            devices: self.devices,
            counters: self.counters.insert(device_id, (self.counter(device_id) + 1) as u64),
            sensor_data: self.sensor_data,
            analytics: self.analytics,
        }
    }

    /// The store after appending a record, which is numbered from 1 in
    /// insertion order.
    pub open spec fn append(
        self,
        device_id: Seq<char>,
        encrypted_payload: Seq<u8>,
        stage1_key_hash: Seq<char>,
        stage2_key_hash: Seq<char>,
        counter: u64,
        timestamp: Seq<char>,
    ) -> Store {
        Store {
            devices: self.devices,
            counters: self.counters,
            sensor_data: self.sensor_data.push(
                SensorRecord {
                    id: self.sensor_data.len() as int + 1,
                    device_id,
                    encrypted_payload,
                    stage1_key_hash,
                    stage2_key_hash,
                    counter,
                    timestamp,
                },
            ),
            analytics: self.analytics,
        }
    }

    /// The store after appending an analytics value, which is numbered from
    /// 1 in insertion order.
    pub open spec fn append_analytics(
        self,
        device_id: Seq<char>,
        metric_type: Seq<char>,
        value_bits: u64,
        time_window: Seq<char>,
        calculated_at: Seq<char>,
    ) -> Store {
        Store {
            analytics: self.analytics.push(
                AnalyticsRecord {
                    id: self.analytics.len() as int + 1,
                    device_id,
                    metric_type,
                    value_bits,
                    time_window,
                    calculated_at,
                },
            ),
            ..self
        }
    }

    /// The analytics of one metric of one device, newest first.
    pub open spec fn analytics_of(self, device_id: Seq<char>, metric_type: Seq<char>) -> Seq<
        AnalyticsRecord,
    > {
        newest_first(select_analytics(self.analytics, device_id, metric_type))
    }

    /// The record at position `at` is the latest of `device_id`: none of the
    /// device's records has a later timestamp, and every record of the
    /// device inserted after it has a strictly earlier one. Among records
    /// with the same greatest timestamp it is the one written last.
    pub open spec fn is_latest(self, device_id: Seq<char>, at: int) -> bool {
        &&& 0 <= at < self.sensor_data.len()
        &&& self.sensor_data[at].device_id == device_id
        &&& forall|j: int|
            0 <= j < self.sensor_data.len() && (#[trigger] self.sensor_data[j]).device_id
                == device_id ==> !text_less(
                self.sensor_data[at].timestamp,
                self.sensor_data[j].timestamp,
            )
        &&& forall|j: int|
            at < j < self.sensor_data.len() && (#[trigger] self.sensor_data[j]).device_id
                == device_id ==> text_less(
                self.sensor_data[j].timestamp,
                self.sensor_data[at].timestamp,
            )
    }

    /// The latest record of `device_id`, if it has any record.
    pub open spec fn latest(self, device_id: Seq<char>) -> Option<SensorRecord> {
        if exists|at: int| self.is_latest(device_id, at) {
            Some(self.sensor_data[choose|at: int| self.is_latest(device_id, at)])
        } else {
            None
        }
    }

    /// Every counter value is used once: no record carries a value its
    /// device has yet to be allocated, and no two records of one device
    /// carry the same value. Nonces are derived from the device and the
    /// record's counter, so under this invariant no nonce is derived twice.
    pub open spec fn counters_used_once(self) -> bool {
        &&& forall|i: int|
            0 <= i < self.sensor_data.len() ==> (#[trigger] self.sensor_data[i]).counter
                <= self.counter(self.sensor_data[i].device_id)
        &&& forall|i: int, j: int|
            0 <= i < j < self.sensor_data.len() && (#[trigger] self.sensor_data[i]).device_id == (
            #[trigger] self.sensor_data[j]).device_id ==> self.sensor_data[i].counter
                != self.sensor_data[j].counter
    }

    /// This store continues `before`: records and analytics were only
    /// appended, registered devices are as they were, and no counter was
    /// removed or lowered.
    pub open spec fn extends(self, before: Store) -> bool {
        &&& before.sensor_data.is_prefix_of(self.sensor_data)
        &&& before.analytics.is_prefix_of(self.analytics)
        &&& forall|id: Seq<char>| #[trigger]
            before.devices.contains_key(id) ==> self.devices.contains_key(id) && self.devices[id]
                == before.devices[id]
        &&& forall|id: Seq<char>| #[trigger]
            before.counters.contains_key(id) ==> self.counters.contains_key(id)
                && before.counters[id] <= self.counters[id]
    }

    /// The devices registered here and not in `before`.
    pub open spec fn new_devices(self, before: Store) -> Map<Seq<char>, DeviceRecord> {
        Map::new(
            |id: Seq<char>| self.devices.contains_key(id) && !before.devices.contains_key(id),
            |id: Seq<char>| self.devices[id],
        )
    }

    /// The counters that `before` lacks or holds at another value.
    pub open spec fn changed_counters(self, before: Store) -> Map<Seq<char>, u64> {
        Map::new(
            |id: Seq<char>|
                self.counters.contains_key(id) && !(before.counters.contains_key(id)
                    && before.counters[id] == self.counters[id]),
            |id: Seq<char>| self.counters[id],
        )
    }

    /// The records past those that `before` holds.
    pub open spec fn new_records(self, before: Store) -> Seq<SensorRecord> {
        if before.sensor_data.len() <= self.sensor_data.len() {
            self.sensor_data.skip(before.sensor_data.len() as int)
        } else {
            Seq::empty()
        }
    }

    /// The analytics past those that `before` holds.
    pub open spec fn new_analytics(self, before: Store) -> Seq<AnalyticsRecord> {
        if before.analytics.len() <= self.analytics.len() {
            self.analytics.skip(before.analytics.len() as int)
        } else {
            Seq::empty()
        }
    }

    /// Whether any record belongs to `device_id`.
    pub open spec fn has_records(self, device_id: Seq<char>) -> bool {
        exists|j: int|
            0 <= j < self.sensor_data.len() && (#[trigger] self.sensor_data[j]).device_id
                == device_id
    }
}

/// The registry rows hold exactly the entries of the device table, one row
/// to an identifier.
pub open spec fn devices_represent(rows: Seq<DeviceRow>, table: Map<Seq<char>, DeviceRecord>) -> bool {
    &&& forall|i: int|
        0 <= i < rows.len() ==> table.contains_key((#[trigger] rows[i]).id@) && table[rows[i].id@]
            == rows[i]@
    &&& forall|id: Seq<char>| #[trigger]
        table.contains_key(id) ==> exists|i: int|
            0 <= i < rows.len() && (#[trigger] rows[i]).id@ == id
    &&& distinct_device_ids(rows)
}

/// No two registry rows have the same identifier.
pub open spec fn distinct_device_ids(rows: Seq<DeviceRow>) -> bool {
    forall|i: int, j: int|
        0 <= i < j < rows.len() ==> (#[trigger] rows[i]).id@ != (#[trigger] rows[j]).id@
}

/// No two counter rows have the same identifier.
pub open spec fn distinct_counter_ids(rows: Seq<CounterRow>) -> bool {
    forall|i: int, j: int|
        0 <= i < j < rows.len() ==> (#[trigger] rows[i]).device_id@ != (
        #[trigger] rows[j]).device_id@
}

/// Record rows are numbered from 1 in order, and their number fits the
/// row's `id`.
pub open spec fn records_numbered(rows: Seq<SensorDataRow>) -> bool {
    rows.len() <= i32::MAX && forall|i: int| 0 <= i < rows.len() ==> (#[trigger] rows[i]).id == i + 1
}

/// Analytics rows are numbered from 1 in order, and their number fits the
/// row's `id`.
pub open spec fn analytics_numbered(rows: Seq<AnalyticsRow>) -> bool {
    rows.len() <= i32::MAX && forall|i: int| 0 <= i < rows.len() ==> (#[trigger] rows[i]).id == i + 1
}

/// Rows that can be the tables of a store: identifiers are keys, and rows
/// of the append-only tables carry their position.
pub open spec fn tables_consistent(
    devices: Seq<DeviceRow>,
    counters: Seq<CounterRow>,
    sensor_data: Seq<SensorDataRow>,
    analytics: Seq<AnalyticsRow>,
) -> bool {
    &&& distinct_device_ids(devices)
    &&& distinct_counter_ids(counters)
    &&& records_numbered(sensor_data)
    &&& analytics_numbered(analytics)
}

/// The counter rows hold exactly the entries of the counter table, one row
/// to an identifier.
pub open spec fn counters_represent(rows: Seq<CounterRow>, table: Map<Seq<char>, u64>) -> bool {
    &&& forall|i: int|
        0 <= i < rows.len() ==> table.contains_key((#[trigger] rows[i]).device_id@)
            && table[rows[i].device_id@] == rows[i].counter
    &&& forall|id: Seq<char>| #[trigger]
        table.contains_key(id) ==> exists|i: int|
            0 <= i < rows.len() && (#[trigger] rows[i]).device_id@ == id
    &&& distinct_counter_ids(rows)
}

/// The record rows are the records of the model, numbered from 1.
pub open spec fn records_represent(rows: Seq<SensorDataRow>, records: Seq<SensorRecord>) -> bool {
    &&& records.len() == rows.len()
    &&& rows.len() <= i32::MAX
    &&& forall|i: int| 0 <= i < rows.len() ==> (#[trigger] rows[i])@ == records[i]
    &&& forall|i: int| 0 <= i < records.len() ==> (#[trigger] records[i]).id == i + 1
}

/// The analytics rows are the analytics of the model, numbered from 1.
pub open spec fn analytics_represent(rows: Seq<AnalyticsRow>, records: Seq<AnalyticsRecord>) -> bool {
    &&& records.len() == rows.len()
    &&& rows.len() <= i32::MAX
    &&& forall|i: int| 0 <= i < rows.len() ==> (#[trigger] rows[i])@ == records[i]
    &&& forall|i: int| 0 <= i < records.len() ==> (#[trigger] records[i]).id == i + 1
}

/// The values of one metric of one device, in insertion order.
pub open spec fn select_analytics(
    records: Seq<AnalyticsRecord>,
    device_id: Seq<char>,
    metric_type: Seq<char>,
) -> Seq<AnalyticsRecord>
    decreases records.len(),
{
    if records.len() == 0 {
        Seq::empty()
    } else {
        let earlier = select_analytics(records.drop_last(), device_id, metric_type);
        if records.last().device_id == device_id && records.last().metric_type == metric_type {
            earlier.push(records.last())
        } else {
            earlier
        }
    }
}

/// Where a value computed at `stamp` goes into a newest-first sequence:
/// before the first value computed strictly earlier, so after every value
/// computed at the same time.
pub open spec fn insertion_point(sorted: Seq<AnalyticsRecord>, stamp: Seq<char>) -> int
    decreases sorted.len(),
{
    if sorted.len() == 0 {
        0
    } else if text_less(sorted[0].calculated_at, stamp) {
        0
    } else {
        1 + insertion_point(sorted.skip(1), stamp)
    }
}

/// The records ordered by time of computation, newest first; records
/// computed at the same time keep their insertion order.
pub open spec fn newest_first(records: Seq<AnalyticsRecord>) -> Seq<AnalyticsRecord>
    decreases records.len(),
{
    if records.len() == 0 {
        Seq::empty()
    } else {
        let earlier = newest_first(records.drop_last());
        earlier.insert(
            insertion_point(earlier, records.last().calculated_at),
            records.last(),
        )
    }
}

/// The rows as mathematical values.
pub open spec fn analytics_view(rows: Seq<AnalyticsRow>) -> Seq<AnalyticsRecord> {
    Seq::new(rows.len(), |i: int| rows[i]@)
}

/// The counter store.
#[derive(Clone)]
pub struct Database {
    devices: Vec<DeviceRow>,
    counters: Vec<CounterRow>,
    sensor_data: Vec<SensorDataRow>,
    analytics: Vec<AnalyticsRow>,
    model: Ghost<Store>,
}

impl View for Database {
    type V = Store;

    closed spec fn view(&self) -> Store {
        self.model@
    }
}

impl Database {
    /// The rows represent the model: every row is in its table under its
    /// own identifier, every entry of a table has its row, no identifier
    /// occurs twice, and records are numbered from 1 in insertion order.
    pub closed spec fn wf(&self) -> bool {
        &&& devices_represent(self.devices@, self@.devices)
        &&& counters_represent(self.counters@, self@.counters)
        &&& records_represent(self.sensor_data@, self@.sensor_data)
        &&& analytics_represent(self.analytics@, self@.analytics)
    }

    /// A store with empty tables.
    pub fn new() -> (res: Result<Self, LCoreError>)
        ensures
            res matches Ok(db) && db.wf() && db@ == Store::empty(),
    {
        Ok(
            Database {
                devices: Vec::new(),
                counters: Vec::new(),
                sensor_data: Vec::new(),
                analytics: Vec::new(),
                model: Ghost(Store::empty()),
            },
        )
    }

    /// Position of the row of `device_id` in the registry, if it has one.
    fn find_device(&self, device_id: &str) -> (at: Option<usize>)
        requires
            self.wf(),
        ensures
            match at {
                Some(i) => i < self.devices@.len() && self.devices@[i as int].id@ == device_id@
                    && self@.devices.contains_key(device_id@) && self@.devices[device_id@]
                    == self.devices@[i as int]@,
                None => !self@.devices.contains_key(device_id@),
            },
    {
        let mut i: usize = 0;
        while i < self.devices.len()
            invariant
                self.wf(),
                i <= self.devices@.len(),
                forall|k: int| 0 <= k < i ==> (#[trigger] self.devices@[k]).id@ != device_id@,
            decreases self.devices@.len() - i,
        {
            if str_eq(self.devices[i].id.as_str(), device_id) {
                return Some(i);
            }
            i += 1;
        }
        None
    }

    /// Position of the counter row of `device_id`, if it has one.
    fn find_counter(&self, device_id: &str) -> (at: Option<usize>)
        requires
            self.wf(),
        ensures
            match at {
                Some(i) => i < self.counters@.len() && self.counters@[i as int].device_id@
                    == device_id@ && self@.counters.contains_key(device_id@)
                    && self@.counters[device_id@] == self.counters@[i as int].counter,
                None => !self@.counters.contains_key(device_id@),
            },
    {
        let mut i: usize = 0;
        while i < self.counters.len()
            invariant
                self.wf(),
                i <= self.counters@.len(),
                forall|k: int|
                    0 <= k < i ==> (#[trigger] self.counters@[k]).device_id@ != device_id@,
            decreases self.counters@.len() - i,
        {
            if str_eq(self.counters[i].device_id.as_str(), device_id) {
                return Some(i);
            }
            i += 1;
        }
        None
    }

    /// Adds the registry row of a device that has none.
    fn push_device(&mut self, row: DeviceRow)
        requires
            old(self).wf(),
            !old(self)@.devices.contains_key(row.id@),
        ensures
            final(self).wf(),
            final(self)@ == (Store {
                devices: old(self)@.devices.insert(row.id@, row@),
                ..old(self)@
            }),
    {
        let ghost id = row.id@;
        let ghost record = row@;
        let ghost before = self.devices@;
        self.devices.push(row);
        proof {
            self.model@ = Store { devices: self.model@.devices.insert(id, record), ..self.model@ };
            assert forall|key: Seq<char>| #[trigger]
                self@.devices.contains_key(key) implies exists|i: int|
                0 <= i < self.devices@.len() && (#[trigger] self.devices@[i]).id@ == key by {
                if key == id {
                    assert(self.devices@[before.len() as int].id@ == key);
                } else {
                    let i = choose|i: int| 0 <= i < before.len() && (#[trigger] before[i]).id@ == key;
                    assert(self.devices@[i].id@ == key);
                }
            }
        }
    }

    /// Adds the counter row of a device that has none.
    fn push_counter(&mut self, row: CounterRow)
        requires
            old(self).wf(),
            !old(self)@.counters.contains_key(row.device_id@),
        ensures
            final(self).wf(),
            final(self)@ == (Store {
                counters: old(self)@.counters.insert(row.device_id@, row.counter),
                ..old(self)@
            }),
    {
        let ghost id = row.device_id@;
        let ghost value = row.counter;
        let ghost before = self.counters@;
        self.counters.push(row);
        proof {
            self.model@ = Store { counters: self.model@.counters.insert(id, value), ..self.model@ };
            assert forall|key: Seq<char>| #[trigger]
                self@.counters.contains_key(key) implies exists|i: int|
                0 <= i < self.counters@.len() && (#[trigger] self.counters@[i]).device_id@
                    == key by {
                if key == id {
                    assert(self.counters@[before.len() as int].device_id@ == key);
                } else {
                    let i = choose|i: int|
                        0 <= i < before.len() && (#[trigger] before[i]).device_id@ == key;
                    assert(self.counters@[i].device_id@ == key);
                }
            }
        }
    }

    /// Replaces the value of the counter row at position `at`.
    fn set_counter(&mut self, at: usize, value: u64)
        requires
            old(self).wf(),
            at < old(self).counters@.len(),
        ensures
            final(self).wf(),
            final(self)@ == (Store {
                counters: old(self)@.counters.insert(
                    old(self).counters@[at as int].device_id@,
                    value,
                ),
                ..old(self)@
            }),
    {
        let ghost before = self.counters@;
        let ghost id = before[at as int].device_id@;
        let row = CounterRow { device_id: self.counters[at].device_id.clone(), counter: value };
        self.counters.set(at, row);
        proof {
            self.model@ = Store { counters: self.model@.counters.insert(id, value), ..self.model@ };
            assert forall|key: Seq<char>| #[trigger]
                self@.counters.contains_key(key) implies exists|i: int|
                0 <= i < self.counters@.len() && (#[trigger] self.counters@[i]).device_id@
                    == key by {
                if key == id {
                    assert(self.counters@[at as int].device_id@ == key);
                } else {
                    let i = choose|i: int|
                        0 <= i < before.len() && (#[trigger] before[i]).device_id@ == key;
                    assert(self.counters@[i].device_id@ == key);
                }
            }
        }
    }

    /// Registers a device: inserts its row unless the identifier is already
    /// registered, and creates its counter at 0 unless it has one.
    /// Registering again changes nothing and is no error.
    pub fn insert_device(&mut self, device_id: &str, did_document: &str, public_key: &str) -> (res:
        Result<(), LCoreError>)
        requires
            old(self).wf(),
        ensures
            res is Ok,
            final(self).wf(),
            final(self)@ == old(self)@.register(device_id@, did_document@, public_key@),
    {
        if self.find_device(device_id).is_none() {
            self.push_device(
                DeviceRow {
                    id: device_id.to_owned(),
                    did_document: did_document.to_owned(),
                    public_key: public_key.to_owned(),
                },
            );
        }
        if self.find_counter(device_id).is_none() {
            self.push_counter(CounterRow { device_id: device_id.to_owned(), counter: 0 });
        }
        Ok(())
    }

    /// The public key registered for a device, if the device is registered.
    pub fn get_device_public_key(&self, device_id: &str) -> (res: Result<Option<String>, LCoreError>)
        requires
            self.wf(),
        ensures
            match res {
                Ok(Some(key)) => self@.devices.contains_key(device_id@) && key@
                    == self@.devices[device_id@].public_key,
                Ok(None) => !self@.devices.contains_key(device_id@),
                Err(_) => false,
            },
    {
        match self.find_device(device_id) {
            Some(i) => Ok(Some(self.devices[i].public_key.clone())),
            None => Ok(None),
        }
    }

    /// Allocates the next counter value of a device: one more than the last,
    /// 1 for a device without a counter. The increment and the read are one
    /// step on a store that is borrowed exclusively, so no value is handed
    /// out twice. A counter that holds the largest value is exhausted: it
    /// is never wrapped or reset.
    pub fn next_message_counter(&mut self, device_id: &str) -> (res: Result<u64, LCoreError>)
        requires
            old(self).wf(),
        ensures
            final(self).wf(),
            match res {
                Ok(value) => old(self)@.counter(device_id@) < u64::MAX && value == old(
                    self,
                )@.counter(device_id@) + 1 && final(self)@ == old(self)@.allocate(device_id@),
                Err(e) => old(self)@.counter(device_id@) == u64::MAX && e == LCoreError::Database(
                    StorageFault::CounterExhausted,
                ) && final(self)@ == old(self)@,
            },
    {
        match self.find_counter(device_id) {
            Some(i) => {
                let current = self.counters[i].counter;
                if current == u64::MAX {
                    return Err(LCoreError::Database(StorageFault::CounterExhausted));
                }
                self.set_counter(i, current + 1);
                Ok(current + 1)
            },
            None => {
                self.push_counter(CounterRow { device_id: device_id.to_owned(), counter: 1 });
                Ok(1)
            },
        }
    }

    /// Appends a sensor record. Records are immutable once written and are
    /// numbered from 1; the table is full when the next number would not fit
    /// the row's `id`.
    pub fn insert_sensor_data(
        &mut self,
        device_id: &str,
        encrypted_payload: &[u8],
        stage1_key_hash: &str,
        stage2_key_hash: &str,
        counter: u64,
        timestamp: &str,
    ) -> (res: Result<(), LCoreError>)
        requires
            old(self).wf(),
        ensures
            final(self).wf(),
            match res {
                Ok(_) => old(self)@.sensor_data.len() < i32::MAX && final(self)@ == old(
                    self,
                )@.append(
                    device_id@,
                    encrypted_payload@,
                    stage1_key_hash@,
                    stage2_key_hash@,
                    counter,
                    timestamp@,
                ),
                Err(e) => old(self)@.sensor_data.len() >= i32::MAX && e == LCoreError::Database(
                    StorageFault::TableFull,
                ) && final(self)@ == old(self)@,
            },
    {
        if self.sensor_data.len() >= i32::MAX as usize {
            return Err(LCoreError::Database(StorageFault::TableFull));
        }
        let row = SensorDataRow {
            id: (self.sensor_data.len() + 1) as i32,
            device_id: device_id.to_owned(),
            encrypted_payload: slice_to_vec(encrypted_payload),
            stage1_key_hash: stage1_key_hash.to_owned(),
            stage2_key_hash: stage2_key_hash.to_owned(),
            counter,
            timestamp: timestamp.to_owned(),
        };
        let ghost record = row@;
        self.sensor_data.push(row);
        proof {
            self.model@ = Store {
                sensor_data: self.model@.sensor_data.push(record),
                ..self.model@
            };
        }
        Ok(())
    }

    /// The latest record of a device: the one with the greatest timestamp,
    /// compared as text, and among records with that timestamp the one
    /// written last. `None` for a device without records.
    pub fn get_latest_sensor_data(&self, device_id: &str) -> (res: Result<
        Option<SensorDataRow>,
        LCoreError,
    >)
        requires
            self.wf(),
        ensures
            match res {
                Ok(Some(row)) => self@.latest(device_id@) == Some(row@),
                Ok(None) => self@.latest(device_id@) is None && !self@.has_records(device_id@),
                Err(_) => false,
            },
    {
        let mut best: Option<usize> = None;
        let mut i: usize = 0;
        while i < self.sensor_data.len()
            invariant
                self.wf(),
                i <= self.sensor_data@.len(),
                match best {
                    Some(k) => latest_among(self@.sensor_data, device_id@, k as int, i as int),
                    None => forall|j: int|
                        0 <= j < i ==> (#[trigger] self@.sensor_data[j]).device_id != device_id@,
                },
            decreases self.sensor_data@.len() - i,
        {
            if str_eq(self.sensor_data[i].device_id.as_str(), device_id) {
                match best {
                    None => {
                        proof {
                            lemma_lex_less_irreflexive(
                                encode_utf8(self@.sensor_data[i as int].timestamp),
                            );
                        }
                        best = Some(i);
                    },
                    Some(k) => {
                        if str_less(
                            self.sensor_data[i].timestamp.as_str(),
                            self.sensor_data[k].timestamp.as_str(),
                        ) {
                            proof {
                                lemma_earlier_record_changes_nothing(
                                    self@.sensor_data,
                                    device_id@,
                                    k as int,
                                    i as int,
                                );
                            }
                        } else {
                            proof {
                                lemma_later_record_takes_over(
                                    self@.sensor_data,
                                    device_id@,
                                    k as int,
                                    i as int,
                                );
                            }
                            best = Some(i);
                        }
                    },
                }
            }
            i += 1;
        }
        match best {
            Some(k) => {
                proof {
                    assert(self@.is_latest(device_id@, k as int));
                    let at = choose|at: int| self@.is_latest(device_id@, at);
                    lemma_latest_unique(self@, device_id@, at, k as int);
                }
                Ok(Some(copy_row(&self.sensor_data[k])))
            },
            None => Ok(None),
        }
    }

    /// The last counter value allocated to a device; 0 before the first.
    pub fn current_counter(&self, device_id: &str) -> (value: u64)
        requires
            self.wf(),
        ensures
            value == self@.counter(device_id@),
    {
        match self.find_counter(device_id) {
            Some(i) => self.counters[i].counter,
            None => 0,
        }
    }

    /// Number of records in the table.
    pub fn sensor_data_len(&self) -> (n: usize)
        requires
            self.wf(),
        ensures
            n == self@.sensor_data.len(),
    {
        self.sensor_data.len()
    }
}

/// Among the first `upto` records, the one at `at` is the latest of
/// `device_id`.
spec fn latest_among(records: Seq<SensorRecord>, device_id: Seq<char>, at: int, upto: int) -> bool {
    &&& 0 <= at < upto <= records.len()
    &&& records[at].device_id == device_id
    &&& forall|j: int|
        0 <= j < upto && (#[trigger] records[j]).device_id == device_id ==> !text_less(
            records[at].timestamp,
            records[j].timestamp,
        )
    &&& forall|j: int|
        at < j < upto && (#[trigger] records[j]).device_id == device_id ==> text_less(
            records[j].timestamp,
            records[at].timestamp,
        )
}

/// A device has at most one latest record.
pub proof fn lemma_latest_unique(store: Store, device_id: Seq<char>, a: int, b: int)
    requires
        store.is_latest(device_id, a),
        store.is_latest(device_id, b),
    ensures
        a == b,
{
    if a < b {
        assert(text_less(store.sensor_data[b].timestamp, store.sensor_data[a].timestamp));
    } else if b < a {
        assert(text_less(store.sensor_data[a].timestamp, store.sensor_data[b].timestamp));
    }
}

/// A record appended with a timestamp that no stored record of its device
/// exceeds becomes the latest record of that device.
pub proof fn lemma_newest_record_is_latest(
    store: Store,
    device_id: Seq<char>,
    encrypted_payload: Seq<u8>,
    stage1_key_hash: Seq<char>,
    stage2_key_hash: Seq<char>,
    counter: u64,
    timestamp: Seq<char>,
)
    requires
        forall|j: int|
            0 <= j < store.sensor_data.len() && (#[trigger] store.sensor_data[j]).device_id
                == device_id ==> !text_less(timestamp, store.sensor_data[j].timestamp),
    ensures
        ({
            let after = store.append(
                device_id,
                encrypted_payload,
                stage1_key_hash,
                stage2_key_hash,
                counter,
                timestamp,
            );
            after.latest(device_id) == Some(after.sensor_data.last())
        }),
{
    let after = store.append(
        device_id,
        encrypted_payload,
        stage1_key_hash,
        stage2_key_hash,
        counter,
        timestamp,
    );
    let at = store.sensor_data.len() as int;
    lemma_lex_less_irreflexive(encode_utf8(timestamp));
    assert forall|j: int|
        0 <= j < after.sensor_data.len() && (#[trigger] after.sensor_data[j]).device_id
            == device_id implies !text_less(
        after.sensor_data[at].timestamp,
        after.sensor_data[j].timestamp,
    ) by {
        if j < at {
            assert(after.sensor_data[j] == store.sensor_data[j]);
        }
    }
    assert(after.is_latest(device_id, at));
    lemma_latest_unique(after, device_id, choose|k: int| after.is_latest(device_id, k), at);
}

/// A record that is no earlier than the latest so far is the latest of one
/// record more.
proof fn lemma_later_record_takes_over(
    records: Seq<SensorRecord>,
    device_id: Seq<char>,
    at: int,
    next: int,
)
    requires
        latest_among(records, device_id, at, next),
        next < records.len(),
        records[next].device_id == device_id,
        !text_less(records[next].timestamp, records[at].timestamp),
    ensures
        latest_among(records, device_id, next, next + 1),
{
    let top = encode_utf8(records[at].timestamp);
    let new = encode_utf8(records[next].timestamp);
    lemma_lex_less_irreflexive(new);
    assert forall|j: int|
        0 <= j < next + 1 && (#[trigger] records[j]).device_id == device_id implies !text_less(
        records[next].timestamp,
        records[j].timestamp,
    ) by {
        if j < next {
            let other = encode_utf8(records[j].timestamp);
            if lex_less(new, other) {
                // The latest so far would lie before a record it is no
                // earlier than.
                lemma_lex_not_after_then_less(top, new, other);
            }
        }
    }
}

/// A record that is earlier than the latest so far leaves it the latest of
/// one record more.
proof fn lemma_earlier_record_changes_nothing(
    records: Seq<SensorRecord>,
    device_id: Seq<char>,
    at: int,
    next: int,
)
    requires
        latest_among(records, device_id, at, next),
        next < records.len(),
        text_less(records[next].timestamp, records[at].timestamp),
    ensures
        latest_among(records, device_id, at, next + 1),
{
    let top = encode_utf8(records[at].timestamp);
    let new = encode_utf8(records[next].timestamp);
    if lex_less(top, new) {
        lemma_lex_less_transitive(top, new, top);
        lemma_lex_less_irreflexive(top);
    }
}

/// An owned copy of a record row.
fn copy_row(row: &SensorDataRow) -> (copy: SensorDataRow)
    ensures
        copy@ == row@,
{
    SensorDataRow {
        id: row.id,
        device_id: row.device_id.clone(),
        encrypted_payload: slice_to_vec(row.encrypted_payload.as_slice()),
        stage1_key_hash: row.stage1_key_hash.clone(),
        stage2_key_hash: row.stage2_key_hash.clone(),
        counter: row.counter,
        timestamp: row.timestamp.clone(),
    }
}

impl Store {
    /// The store after `n` successive allocations for `device_id`.
    pub open spec fn allocate_n(self, device_id: Seq<char>, n: nat) -> Store
        decreases n,
    {
        if n == 0 {
            self
        } else {
            self.allocate_n(device_id, (n - 1) as nat).allocate(device_id)
        }
    }
}

/// Successive allocations for a device hand out successive values: after
/// `n` of them the counter stands `n` above where it started, so the `k`-th
/// allocation returned the start plus `k`. On a device that has never
/// allocated these are exactly 1, 2, ..., `n`, without gap or repetition.
/// Registry and records are untouched, and so is every other counter.
pub proof fn lemma_counter_sequence(store: Store, device_id: Seq<char>, n: nat)
    requires
        store.counter(device_id) + n <= u64::MAX,
    ensures
        store.allocate_n(device_id, n).counter(device_id) == store.counter(device_id) + n,
        forall|k: nat|
            1 <= k <= n ==> (#[trigger] store.allocate_n(device_id, k)).counter(device_id)
                == store.counter(device_id) + k,
        forall|other: Seq<char>|
            other != device_id ==> #[trigger] store.allocate_n(device_id, n).counter(other)
                == store.counter(other),
        store.allocate_n(device_id, n).devices == store.devices,
        store.allocate_n(device_id, n).sensor_data == store.sensor_data,
    decreases n,
{
    assert forall|other: Seq<char>| other != device_id implies #[trigger] store.allocate_n(
        device_id,
        n,
    ).counter(other) == store.counter(other) by {
        lemma_other_counters_untouched(store, device_id, n, other);
    }
    if n > 0 {
        lemma_counter_sequence(store, device_id, (n - 1) as nat);
        assert forall|k: nat| 1 <= k <= n implies (#[trigger] store.allocate_n(
            device_id,
            k,
        )).counter(device_id) == store.counter(device_id) + k by {
            if k < n {
                lemma_counter_sequence(store, device_id, k);
            }
        }
    }
}

/// Allocating for one device leaves the counter of another where it was.
proof fn lemma_other_counters_untouched(
    store: Store,
    device_id: Seq<char>,
    n: nat,
    other: Seq<char>,
)
    requires
        other != device_id,
    ensures
        store.allocate_n(device_id, n).counter(other) == store.counter(other),
    decreases n,
{
    if n > 0 {
        lemma_other_counters_untouched(store, device_id, (n - 1) as nat, other);
    }
}

/// Allocation is strictly increasing: a value handed out is greater than
/// every value handed out before it for the same device.
pub proof fn lemma_counter_strictly_increasing(
    store: Store,
    device_id: Seq<char>,
    earlier: nat,
    later: nat,
)
    requires
        earlier < later,
        store.counter(device_id) + later <= u64::MAX,
    ensures
        store.allocate_n(device_id, earlier).counter(device_id) < store.allocate_n(
            device_id,
            later,
        ).counter(device_id),
{
    lemma_counter_sequence(store, device_id, earlier);
    lemma_counter_sequence(store, device_id, later);
}

/// Registering a device twice is the same as registering it once, whatever
/// document and key the second registration brings.
pub proof fn lemma_register_idempotent(
    store: Store,
    device_id: Seq<char>,
    did_document: Seq<char>,
    public_key: Seq<char>,
    other_document: Seq<char>,
    other_key: Seq<char>,
)
    ensures
        store.register(device_id, did_document, public_key).register(
            device_id,
            other_document,
            other_key,
        ) == store.register(device_id, did_document, public_key),
{
}

/// An owned copy of an analytics row.
fn copy_analytics_row(row: &AnalyticsRow) -> (copy: AnalyticsRow)
    ensures
        copy@ == row@,
{
    AnalyticsRow {
        id: row.id,
        device_id: row.device_id.clone(),
        metric_type: row.metric_type.clone(),
        value_bits: row.value_bits,
        time_window: row.time_window.clone(),
        calculated_at: row.calculated_at.clone(),
    }
}

/// Where a row computed at `stamp` goes into rows kept newest first.
fn find_insertion_point(sorted: &Vec<AnalyticsRow>, stamp: &str) -> (at: usize)
    ensures
        at == insertion_point(analytics_view(sorted@), stamp@),
        at <= sorted@.len(),
{
    let ghost records = analytics_view(sorted@);
    let mut at: usize = 0;
    assert(records.skip(0) == records);
    while at < sorted.len() && !str_less(sorted[at].calculated_at.as_str(), stamp)
        invariant
            at <= sorted@.len(),
            records == analytics_view(sorted@),
            insertion_point(records, stamp@) == at + insertion_point(records.skip(at as int), stamp@),
        decreases sorted@.len() - at,
    {
        assert(records.skip(at as int).skip(1) == records.skip(at + 1));
        at += 1;
    }
    at
}

impl Database {
    /// Appends an analytics value computed at the given time. Values are
    /// immutable once written and are numbered from 1; the table is full
    /// when the next number would not fit the row's `id`.
    pub fn insert_analytics_at(
        &mut self,
        device_id: &str,
        metric_type: &str,
        value_bits: u64,
        time_window: &str,
        calculated_at: &str,
    ) -> (res: Result<(), LCoreError>)
        requires
            old(self).wf(),
        ensures
            final(self).wf(),
            match res {
                Ok(_) => old(self)@.analytics.len() < i32::MAX && final(self)@ == old(
                    self,
                )@.append_analytics(
                    device_id@,
                    metric_type@,
                    value_bits,
                    time_window@,
                    calculated_at@,
                ),
                Err(e) => old(self)@.analytics.len() >= i32::MAX && e == LCoreError::Database(
                    StorageFault::TableFull,
                ) && final(self)@ == old(self)@,
            },
    {
        if self.analytics.len() >= i32::MAX as usize {
            return Err(LCoreError::Database(StorageFault::TableFull));
        }
        let row = AnalyticsRow {
            id: (self.analytics.len() + 1) as i32,
            device_id: device_id.to_owned(),
            metric_type: metric_type.to_owned(),
            value_bits,
            time_window: time_window.to_owned(),
            calculated_at: calculated_at.to_owned(),
        };
        let ghost record = row@;
        self.analytics.push(row);
        proof {
            self.model@ = Store { analytics: self.model@.analytics.push(record), ..self.model@ };
        }
        Ok(())
    }

    /// Appends an analytics value computed now: the store is that of
    /// [`Self::insert_analytics_at`] at the time the clock gave.
    pub fn insert_analytics(
        &mut self,
        device_id: &str,
        metric_type: &str,
        value_bits: u64,
        time_window: &str,
    ) -> (res: Result<(), LCoreError>)
        requires
            old(self).wf(),
        ensures
            final(self).wf(),
            match res {
                Ok(_) => old(self)@.analytics.len() < i32::MAX && exists|now: Seq<char>|
                    final(self)@ == #[trigger] old(self)@.append_analytics(
                        device_id@,
                        metric_type@,
                        value_bits,
                        time_window@,
                        now,
                    ),
                Err(e) => old(self)@.analytics.len() >= i32::MAX && e == LCoreError::Database(
                    StorageFault::TableFull,
                ) && final(self)@ == old(self)@,
            },
    {
        let now = crate::clock::current_timestamp();
        let res = self.insert_analytics_at(
            device_id,
            metric_type,
            value_bits,
            time_window,
            now.as_str(),
        );
        proof {
            if res is Ok {
                assert(self@ == old(self)@.append_analytics(
                    device_id@,
                    metric_type@,
                    value_bits,
                    time_window@,
                    now@,
                ));
            }
        }
        res
    }

    /// The analytics of one metric of one device, ordered by time of
    /// computation, newest first; values computed at the same time come in
    /// insertion order.
    pub fn get_analytics(&self, device_id: &str, metric_type: &str) -> (res: Result<
        Vec<AnalyticsRow>,
        LCoreError,
    >)
        requires
            self.wf(),
        ensures
            res matches Ok(rows) && analytics_view(rows@) == self@.analytics_of(
                device_id@,
                metric_type@,
            ),
    {
        let mut out: Vec<AnalyticsRow> = Vec::new();
        let mut i: usize = 0;
        while i < self.analytics.len()
            invariant
                self.wf(),
                i <= self.analytics@.len(),
                analytics_view(out@) == newest_first(
                    select_analytics(self@.analytics.take(i as int), device_id@, metric_type@),
                ),
            decreases self.analytics@.len() - i,
        {
            let row = &self.analytics[i];
            proof {
                assert(self@.analytics.take(i + 1).drop_last() =~= self@.analytics.take(i as int));
            }
            if str_eq(row.device_id.as_str(), device_id) && str_eq(
                row.metric_type.as_str(),
                metric_type,
            ) {
                let ghost selected = select_analytics(
                    self@.analytics.take(i + 1),
                    device_id@,
                    metric_type@,
                );
                let at = find_insertion_point(&out, row.calculated_at.as_str());
                let copy = copy_analytics_row(row);
                out.insert(at, copy);
                proof {
                    assert(selected.drop_last() =~= select_analytics(
                        self@.analytics.take(i as int),
                        device_id@,
                        metric_type@,
                    ));
                }
            }
            i += 1;
        }
        assert(self@.analytics.take(i as int) =~= self@.analytics);
        Ok(out)
    }
}

/// Ordering keeps every record and adds none.
pub proof fn lemma_newest_first_len(records: Seq<AnalyticsRecord>)
    ensures
        newest_first(records).len() == records.len(),
    decreases records.len(),
{
    if records.len() > 0 {
        lemma_newest_first_len(records.drop_last());
        lemma_insertion_point_in_range(
            newest_first(records.drop_last()),
            records.last().calculated_at,
        );
    }
}

/// The insertion point lies within the sequence or at its end; everything
/// before it was computed no earlier than `stamp`, and what stands at it was
/// computed strictly earlier.
pub proof fn lemma_insertion_point_in_range(sorted: Seq<AnalyticsRecord>, stamp: Seq<char>)
    ensures
        0 <= insertion_point(sorted, stamp) <= sorted.len(),
        forall|k: int|
            0 <= k < insertion_point(sorted, stamp) ==> !text_less(
                (#[trigger] sorted[k]).calculated_at,
                stamp,
            ),
        insertion_point(sorted, stamp) < sorted.len() ==> text_less(
            sorted[insertion_point(sorted, stamp)].calculated_at,
            stamp,
        ),
    decreases sorted.len(),
{
    if sorted.len() > 0 && !text_less(sorted[0].calculated_at, stamp) {
        let rest = sorted.skip(1);
        lemma_insertion_point_in_range(rest, stamp);
        assert forall|k: int| 0 <= k < insertion_point(sorted, stamp) implies !text_less(
            (#[trigger] sorted[k]).calculated_at,
            stamp,
        ) by {
            if k > 0 {
                assert(sorted[k] == rest[k - 1]);
            }
        }
    }
}

/// No record stands before one that was computed later.
pub open spec fn is_newest_first(records: Seq<AnalyticsRecord>) -> bool {
    forall|i: int, j: int|
        0 <= i < j < records.len() ==> !text_less(
            (#[trigger] records[i]).calculated_at,
            (#[trigger] records[j]).calculated_at,
        )
}

/// What [`newest_first`] returns is ordered newest first.
pub proof fn lemma_newest_first_ordered(records: Seq<AnalyticsRecord>)
    ensures
        is_newest_first(newest_first(records)),
    decreases records.len(),
{
    if records.len() > 0 {
        let earlier = newest_first(records.drop_last());
        let new = records.last();
        let at = insertion_point(earlier, new.calculated_at);
        let out = newest_first(records);
        lemma_newest_first_ordered(records.drop_last());
        lemma_insertion_point_in_range(earlier, new.calculated_at);
        assert forall|i: int, j: int| 0 <= i < j < out.len() implies !text_less(
            (#[trigger] out[i]).calculated_at,
            (#[trigger] out[j]).calculated_at,
        ) by {
            let stamp = encode_utf8(new.calculated_at);
            if j == at {
                assert(out[i] == earlier[i]);
            } else if i == at {
                // Everything after the insertion point is no later than
                // what stood at it, which is earlier than the new record.
                assert(out[j] == earlier[j - 1]);
                let head = encode_utf8(earlier[at].calculated_at);
                let other = encode_utf8(earlier[j - 1].calculated_at);
                if at < j - 1 {
                    assert(!text_less(earlier[at].calculated_at, earlier[j - 1].calculated_at));
                }
                if lex_less(stamp, other) {
                    lemma_lex_less_transitive(head, stamp, other);
                    lemma_lex_less_irreflexive(head);
                }
            } else {
                let a = if i < at { i } else { i - 1 };
                let b = if j < at { j } else { j - 1 };
                assert(out[i] == earlier[a]);
                assert(out[j] == earlier[b]);
            }
        }
    }
}

/// Whether no two registry rows have the same identifier.
fn device_ids_distinct(rows: &Vec<DeviceRow>) -> (distinct: bool)
    ensures
        distinct == distinct_device_ids(rows@),
{
    let mut j: usize = 0;
    while j < rows.len()
        invariant
            j <= rows@.len(),
            forall|a: int, b: int|
                0 <= a < b < j ==> (#[trigger] rows@[a]).id@ != (#[trigger] rows@[b]).id@,
        decreases rows@.len() - j,
    {
        let mut i: usize = 0;
        while i < j
            invariant
                i <= j < rows@.len(),
                forall|a: int| 0 <= a < i ==> (#[trigger] rows@[a]).id@ != rows@[j as int].id@,
            decreases j - i,
        {
            if str_eq(rows[i].id.as_str(), rows[j].id.as_str()) {
                return false;
            }
            i += 1;
        }
        j += 1;
    }
    true
}

/// Whether no two counter rows have the same identifier.
fn counter_ids_distinct(rows: &Vec<CounterRow>) -> (distinct: bool)
    ensures
        distinct == distinct_counter_ids(rows@),
{
    let mut j: usize = 0;
    while j < rows.len()
        invariant
            j <= rows@.len(),
            forall|a: int, b: int|
                0 <= a < b < j ==> (#[trigger] rows@[a]).device_id@ != (
                #[trigger] rows@[b]).device_id@,
        decreases rows@.len() - j,
    {
        let mut i: usize = 0;
        while i < j
            invariant
                i <= j < rows@.len(),
                forall|a: int|
                    0 <= a < i ==> (#[trigger] rows@[a]).device_id@ != rows@[j as int].device_id@,
            decreases j - i,
        {
            if str_eq(rows[i].device_id.as_str(), rows[j].device_id.as_str()) {
                return false;
            }
            i += 1;
        }
        j += 1;
    }
    true
}

/// Whether record rows carry the numbers 1, 2, ... in order.
fn records_are_numbered(rows: &Vec<SensorDataRow>) -> (numbered: bool)
    ensures
        numbered == records_numbered(rows@),
{
    if rows.len() > i32::MAX as usize {
        return false;
    }
    let mut i: usize = 0;
    while i < rows.len()
        invariant
            i <= rows@.len() <= i32::MAX,
            forall|k: int| 0 <= k < i ==> (#[trigger] rows@[k]).id == k + 1,
        decreases rows@.len() - i,
    {
        if rows[i].id != (i + 1) as i32 {
            return false;
        }
        i += 1;
    }
    true
}

/// Whether analytics rows carry the numbers 1, 2, ... in order.
fn analytics_are_numbered(rows: &Vec<AnalyticsRow>) -> (numbered: bool)
    ensures
        numbered == analytics_numbered(rows@),
{
    if rows.len() > i32::MAX as usize {
        return false;
    }
    let mut i: usize = 0;
    while i < rows.len()
        invariant
            i <= rows@.len() <= i32::MAX,
            forall|k: int| 0 <= k < i ==> (#[trigger] rows@[k]).id == k + 1,
        decreases rows@.len() - i,
    {
        if rows[i].id != (i + 1) as i32 {
            return false;
        }
        i += 1;
    }
    true
}

/// The device table that the rows spell out.
spec fn device_table(rows: Seq<DeviceRow>) -> Map<Seq<char>, DeviceRecord> {
    Map::new(
        |id: Seq<char>| exists|i: int| 0 <= i < rows.len() && (#[trigger] rows[i]).id@ == id,
        |id: Seq<char>| rows[choose|i: int| 0 <= i < rows.len() && (#[trigger] rows[i]).id@ == id]@,
    )
}

/// The counter table that the rows spell out.
spec fn counter_table(rows: Seq<CounterRow>) -> Map<Seq<char>, u64> {
    Map::new(
        |id: Seq<char>|
            exists|i: int| 0 <= i < rows.len() && (#[trigger] rows[i]).device_id@ == id,
        |id: Seq<char>|
            rows[choose|i: int| 0 <= i < rows.len() && (#[trigger] rows[i]).device_id@ == id].counter,
    )
}

impl Database {
    /// Opens a store on tables that were written out earlier. The rows must
    /// be consistent: identifiers are keys of the registry and of the
    /// counter table, and records and analytics carry their position.
    pub fn from_tables(
        devices: Vec<DeviceRow>,
        counters: Vec<CounterRow>,
        sensor_data: Vec<SensorDataRow>,
        analytics: Vec<AnalyticsRow>,
    ) -> (res: Result<Database, LCoreError>)
        ensures
            match res {
                Ok(db) => db.wf() && tables_consistent(
                    devices@,
                    counters@,
                    sensor_data@,
                    analytics@,
                ) && devices_represent(devices@, db@.devices) && counters_represent(
                    counters@,
                    db@.counters,
                ) && records_represent(sensor_data@, db@.sensor_data) && analytics_represent(
                    analytics@,
                    db@.analytics,
                ),
                Err(e) => !tables_consistent(devices@, counters@, sensor_data@, analytics@) && e
                    == LCoreError::Database(StorageFault::Inconsistent),
            },
    {
        if !device_ids_distinct(&devices) || !counter_ids_distinct(&counters)
            || !records_are_numbered(&sensor_data) || !analytics_are_numbered(&analytics) {
            return Err(LCoreError::Database(StorageFault::Inconsistent));
        }
        let ghost model = Store {
            devices: device_table(devices@),
            counters: counter_table(counters@),
            sensor_data: Seq::new(sensor_data@.len(), |i: int| sensor_data@[i]@),
            analytics: Seq::new(analytics@.len(), |i: int| analytics@[i]@),
        };
        proof {
            assert forall|i: int| 0 <= i < devices@.len() implies model.devices.contains_key(
                (#[trigger] devices@[i]).id@,
            ) && model.devices[devices@[i].id@] == devices@[i]@ by {
                let id = devices@[i].id@;
                let j = choose|j: int| 0 <= j < devices@.len() && (#[trigger] devices@[j]).id@ == id;
            }
            assert forall|i: int| 0 <= i < counters@.len() implies model.counters.contains_key(
                (#[trigger] counters@[i]).device_id@,
            ) && model.counters[counters@[i].device_id@] == counters@[i].counter by {
                let id = counters@[i].device_id@;
                let j = choose|j: int|
                    0 <= j < counters@.len() && (#[trigger] counters@[j]).device_id@ == id;
            }
        }
        Ok(Database { devices, counters, sensor_data, analytics, model: Ghost(model) })
    }

    /// The rows of the registry.
    pub fn device_rows(&self) -> (rows: &Vec<DeviceRow>)
        requires
            self.wf(),
        ensures
            devices_represent(rows@, self@.devices),
    {
        &self.devices
    }

    /// The rows of the counter table.
    pub fn counter_rows(&self) -> (rows: &Vec<CounterRow>)
        requires
            self.wf(),
        ensures
            counters_represent(rows@, self@.counters),
    {
        &self.counters
    }

    /// The rows of the record table, in insertion order.
    pub fn sensor_rows(&self) -> (rows: &Vec<SensorDataRow>)
        requires
            self.wf(),
        ensures
            records_represent(rows@, self@.sensor_data),
    {
        &self.sensor_data
    }

    /// The rows of the analytics table, in insertion order.
    pub fn analytics_rows(&self) -> (rows: &Vec<AnalyticsRow>)
        requires
            self.wf(),
        ensures
            analytics_represent(rows@, self@.analytics),
    {
        &self.analytics
    }
}

/// What a store holds that an earlier store did not: the rows to write
/// out so that the tables on disk follow the store.
pub struct Changes {
    pub devices: Vec<DeviceRow>,
    pub counters: Vec<CounterRow>,
    pub sensor_data: Vec<SensorDataRow>,
    pub analytics: Vec<AnalyticsRow>,
}

/// The record rows as mathematical values.
pub open spec fn records_view(rows: Seq<SensorDataRow>) -> Seq<SensorRecord> {
    Seq::new(rows.len(), |i: int| rows[i]@)
}

/// An owned copy of a registry row.
fn copy_device_row(row: &DeviceRow) -> (copy: DeviceRow)
    ensures
        copy@ == row@,
        copy.id@ == row.id@,
{
    DeviceRow {
        id: row.id.clone(),
        did_document: row.did_document.clone(),
        public_key: row.public_key.clone(),
    }
}

impl Database {
    /// The registry rows whose device `before` does not know.
    fn devices_since(&self, before: &Database) -> (out: Vec<DeviceRow>)
        requires
            self.wf(),
            before.wf(),
        ensures
            devices_represent(out@, self@.new_devices(before@)),
    {
        let mut out: Vec<DeviceRow> = Vec::new();
        let ghost mut origin: Seq<int> = Seq::empty();
        let mut i: usize = 0;
        while i < self.devices.len()
            invariant
                self.wf(),
                before.wf(),
                i <= self.devices@.len(),
                origin.len() == out@.len(),
                forall|j: int|
                    0 <= j < out@.len() ==> 0 <= #[trigger] origin[j] < i && out@[j].id@
                        == self.devices@[origin[j]].id@ && out@[j]@ == self.devices@[origin[j]]@
                        && !before@.devices.contains_key(out@[j].id@),
                forall|a: int, b: int|
                    0 <= a < b < origin.len() ==> #[trigger] origin[a] < #[trigger] origin[b],
                forall|k: int|
                    0 <= k < i && !before@.devices.contains_key(
                        (#[trigger] self.devices@[k]).id@,
                    ) ==> exists|j: int| 0 <= j < origin.len() && #[trigger] origin[j] == k,
            decreases self.devices@.len() - i,
        {
            if before.find_device(self.devices[i].id.as_str()).is_none() {
                let ghost earlier = origin;
                let ghost held = out@;
                let copy = copy_device_row(&self.devices[i]);
                out.push(copy);
                proof {
                    origin = origin.push(i as int);
                    assert forall|j: int| 0 <= j < out@.len() implies 0 <= #[trigger] origin[j] < i
                        + 1 && out@[j].id@ == self.devices@[origin[j]].id@ && out@[j]@
                        == self.devices@[origin[j]]@ && !before@.devices.contains_key(
                        out@[j].id@,
                    ) by {
                        if j < held.len() {
                            assert(origin[j] == earlier[j]);
                            assert(out@[j] == held[j]);
                        }
                    }
                    assert forall|k: int|
                        0 <= k < i + 1 && !before@.devices.contains_key(
                            (#[trigger] self.devices@[k]).id@,
                        ) implies exists|j: int| 0 <= j < origin.len() && #[trigger] origin[j]
                        == k by {
                        if k < i {
                            let j = choose|j: int| 0 <= j < earlier.len() && #[trigger] earlier[j] == k;
                            assert(origin[j] == k);
                        } else {
                            assert(origin[earlier.len() as int] == k);
                        }
                    }
                }
            }
            i += 1;
        }
        proof {
            let table = self@.new_devices(before@);
            assert forall|j: int| 0 <= j < out@.len() implies table.contains_key(
                (#[trigger] out@[j]).id@,
            ) && table[out@[j].id@] == out@[j]@ by {
                let row = self.devices@[origin[j]];
                assert(self@.devices.contains_key(row.id@));
            }
            assert forall|id: Seq<char>| #[trigger] table.contains_key(id) implies exists|j: int|
                0 <= j < out@.len() && (#[trigger] out@[j]).id@ == id by {
                let k = choose|k: int|
                    0 <= k < self.devices@.len() && (#[trigger] self.devices@[k]).id@ == id;
                let j = choose|j: int| 0 <= j < origin.len() && #[trigger] origin[j] == k;
                assert(out@[j].id@ == id);
            }
            assert forall|a: int, b: int| 0 <= a < b < out@.len() implies (#[trigger] out@[a]).id@
                != (#[trigger] out@[b]).id@ by {
                assert(origin[a] < origin[b]);
                let x = self.devices@[origin[a]];
                let y = self.devices@[origin[b]];
                assert(x.id@ != y.id@);
            }
        }
        out
    }

    /// The counter rows that `before` lacks or holds at another value.
    fn counters_since(&self, before: &Database) -> (out: Vec<CounterRow>)
        requires
            self.wf(),
            before.wf(),
        ensures
            counters_represent(out@, self@.changed_counters(before@)),
    {
        let mut out: Vec<CounterRow> = Vec::new();
        let ghost mut origin: Seq<int> = Seq::empty();
        let ghost table = self@.changed_counters(before@);
        let mut i: usize = 0;
        while i < self.counters.len()
            invariant
                self.wf(),
                before.wf(),
                table == self@.changed_counters(before@),
                i <= self.counters@.len(),
                origin.len() == out@.len(),
                forall|j: int|
                    0 <= j < out@.len() ==> 0 <= #[trigger] origin[j] < i && out@[j].device_id@
                        == self.counters@[origin[j]].device_id@ && out@[j].counter
                        == self.counters@[origin[j]].counter && table.contains_key(
                        out@[j].device_id@,
                    ),
                forall|a: int, b: int|
                    0 <= a < b < origin.len() ==> #[trigger] origin[a] < #[trigger] origin[b],
                forall|k: int|
                    0 <= k < i && table.contains_key((#[trigger] self.counters@[k]).device_id@)
                        ==> exists|j: int| 0 <= j < origin.len() && #[trigger] origin[j] == k,
            decreases self.counters@.len() - i,
        {
            let row = &self.counters[i];
            assert(self@.counters.contains_key(row.device_id@) && self@.counters[row.device_id@]
                == row.counter);
            let changed = match before.find_counter(row.device_id.as_str()) {
                Some(at) => before.counters[at].counter != row.counter,
                None => true,
            };
            if changed {
                let ghost earlier = origin;
                let ghost held = out@;
                out.push(CounterRow { device_id: row.device_id.clone(), counter: row.counter });
                proof {
                    origin = origin.push(i as int);
                    assert forall|j: int| 0 <= j < out@.len() implies 0 <= #[trigger] origin[j] < i
                        + 1 && out@[j].device_id@ == self.counters@[origin[j]].device_id@
                        && out@[j].counter == self.counters@[origin[j]].counter
                        && table.contains_key(out@[j].device_id@) by {
                        if j < held.len() {
                            assert(origin[j] == earlier[j]);
                            assert(out@[j] == held[j]);
                        }
                    }
                    assert forall|k: int|
                        0 <= k < i + 1 && table.contains_key(
                            (#[trigger] self.counters@[k]).device_id@,
                        ) implies exists|j: int| 0 <= j < origin.len() && #[trigger] origin[j]
                        == k by {
                        if k < i {
                            let j = choose|j: int| 0 <= j < earlier.len() && #[trigger] earlier[j] == k;
                            assert(origin[j] == k);
                        } else {
                            assert(origin[earlier.len() as int] == k);
                        }
                    }
                }
            }
            i += 1;
        }
        proof {
            assert forall|j: int| 0 <= j < out@.len() implies table.contains_key(
                (#[trigger] out@[j]).device_id@,
            ) && table[out@[j].device_id@] == out@[j].counter by {
                let row = self.counters@[origin[j]];
                assert(self@.counters.contains_key(row.device_id@));
            }
            assert forall|id: Seq<char>| #[trigger] table.contains_key(id) implies exists|j: int|
                0 <= j < out@.len() && (#[trigger] out@[j]).device_id@ == id by {
                let k = choose|k: int|
                    0 <= k < self.counters@.len() && (#[trigger] self.counters@[k]).device_id@ == id;
                let j = choose|j: int| 0 <= j < origin.len() && #[trigger] origin[j] == k;
                assert(out@[j].device_id@ == id);
            }
            assert forall|a: int, b: int| 0 <= a < b < out@.len() implies (
            #[trigger] out@[a]).device_id@ != (#[trigger] out@[b]).device_id@ by {
                assert(origin[a] < origin[b]);
                let x = self.counters@[origin[a]];
                let y = self.counters@[origin[b]];
                assert(x.device_id@ != y.device_id@);
            }
        }
        out
    }

    /// The record rows past those that `before` holds.
    fn records_since(&self, before: &Database) -> (out: Vec<SensorDataRow>)
        requires
            self.wf(),
            before.wf(),
        ensures
            records_view(out@) == self@.new_records(before@),
    {
        let mut out: Vec<SensorDataRow> = Vec::new();
        let start = before.sensor_data.len();
        if start > self.sensor_data.len() {
            assert(records_view(out@) =~= Seq::empty());
            return out;
        }
        let mut i: usize = start;
        while i < self.sensor_data.len()
            invariant
                self.wf(),
                start <= i <= self.sensor_data@.len(),
                out@.len() == i - start,
                records_view(out@) == self@.sensor_data.subrange(start as int, i as int),
            decreases self.sensor_data@.len() - i,
        {
            let ghost held = out@;
            assert(self.sensor_data@[i as int]@ == self@.sensor_data[i as int]);
            out.push(copy_row(&self.sensor_data[i]));
            assert forall|k: int| 0 <= k < out@.len() implies records_view(out@)[k]
                == self@.sensor_data.subrange(start as int, i + 1)[k] by {
                if k < held.len() {
                    assert(records_view(held)[k] == held[k]@);
                    assert(out@[k] == held[k]);
                }
            }
            assert(records_view(out@) =~= self@.sensor_data.subrange(start as int, i + 1));
            i += 1;
        }
        assert(self@.sensor_data.subrange(start as int, i as int) =~= self@.sensor_data.skip(
            start as int,
        ));
        out
    }

    /// The analytics rows past those that `before` holds.
    fn analytics_since(&self, before: &Database) -> (out: Vec<AnalyticsRow>)
        requires
            self.wf(),
            before.wf(),
        ensures
            analytics_view(out@) == self@.new_analytics(before@),
    {
        let mut out: Vec<AnalyticsRow> = Vec::new();
        let start = before.analytics.len();
        if start > self.analytics.len() {
            assert(analytics_view(out@) =~= Seq::empty());
            return out;
        }
        let mut i: usize = start;
        while i < self.analytics.len()
            invariant
                self.wf(),
                start <= i <= self.analytics@.len(),
                out@.len() == i - start,
                analytics_view(out@) == self@.analytics.subrange(start as int, i as int),
            decreases self.analytics@.len() - i,
        {
            let ghost held = out@;
            assert(self.analytics@[i as int]@ == self@.analytics[i as int]);
            out.push(copy_analytics_row(&self.analytics[i]));
            assert forall|k: int| 0 <= k < out@.len() implies analytics_view(out@)[k]
                == self@.analytics.subrange(start as int, i + 1)[k] by {
                if k < held.len() {
                    assert(analytics_view(held)[k] == held[k]@);
                    assert(out@[k] == held[k]);
                }
            }
            assert(analytics_view(out@) =~= self@.analytics.subrange(start as int, i + 1));
            i += 1;
        }
        assert(self@.analytics.subrange(start as int, i as int) =~= self@.analytics.skip(
            start as int,
        ));
        out
    }

    /// What this store holds that `before` did not: the devices `before`
    /// does not know, the counters it lacks or holds at another value, and
    /// the records and analytics past those it holds. Where this store
    /// continues `before`, that is all that tells them apart.
    pub fn changes_since(&self, before: &Database) -> (delta: Changes)
        requires
            self.wf(),
            before.wf(),
        ensures
            devices_represent(delta.devices@, self@.new_devices(before@)),
            counters_represent(delta.counters@, self@.changed_counters(before@)),
            records_view(delta.sensor_data@) == self@.new_records(before@),
            analytics_view(delta.analytics@) == self@.new_analytics(before@),
    {
        Changes {
            devices: self.devices_since(before),
            counters: self.counters_since(before),
            sensor_data: self.records_since(before),
            analytics: self.analytics_since(before),
        }
    }
}

/// Where a store continues an earlier one, the earlier store and the
/// changes give the later store back: the new rows appended, the new
/// devices added, and the changed counters written over the old.
pub proof fn lemma_changes_are_complete(before: Store, after: Store)
    requires
        after.extends(before),
    ensures
        before.sensor_data + after.new_records(before) == after.sensor_data,
        before.analytics + after.new_analytics(before) == after.analytics,
        before.devices.union_prefer_right(after.new_devices(before)) == after.devices,
        before.counters.union_prefer_right(after.changed_counters(before)) == after.counters,
{
    assert(before.sensor_data + after.new_records(before) =~= after.sensor_data);
    assert(before.analytics + after.new_analytics(before) =~= after.analytics);
    assert(before.devices.union_prefer_right(after.new_devices(before)) =~= after.devices);
    assert(before.counters.union_prefer_right(after.changed_counters(before)) =~= after.counters);
}

} // verus!
