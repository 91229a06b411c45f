//! The storage engine: sensor rows and append-only reading rows.
//!
//! The store owns the persisted representation.  Every operation promises a
//! transition or a result of the model in `crate::model`, and preserves
//! `store_wf`: ids assigned in insertion order, one sensor row per hardware
//! address, readings referencing existing sensors.
use vstd::prelude::*;

use crate::model::{
    addr_known, append_model, has_reading, id_of_addr, in_range, is_latest_for, later,
    range_result_ok, resolve_model, store_wf, SensorModel, StoreModel, STORE_CAP,
};
use crate::order::{lemma_lex_le_total, lemma_lex_le_trans, lex_le, str_eq, str_le};
use crate::time::ts_in_window;

verus! {

/// A failure at the persistence boundary.  Constraint violations are
/// distinguished from transient I/O and timeout failures.
#[derive(Clone, Copy, Debug, PartialEq, Eq, Structural)]
pub enum StorageError {
    /// A unique constraint was violated (duplicate hardware address).
    UniqueViolation,
    /// A foreign key constraint was violated (no such sensor).
    ForeignKeyViolation,
    /// A connection or I/O failure.
    Io,
    /// The operation did not complete within its bounded time.
    Timeout,
}

/// One decoded measurement together with its capture time, as handed to the
/// store.  The four channels are stored exactly as received, as opaque 32-bit
/// encodings; the store never interprets them.
#[derive(Clone, Copy, Debug, PartialEq, Eq, Structural)]
pub struct SensorValue {
    pub co2: u32,
    pub temperature: u32,
    pub humidity: u32,
    pub lumen: u32,
    /// Capture time in milliseconds since the Unix epoch.
    pub reading_time: i64,
}

/// One immutable reading row.
#[derive(Clone, Copy, Debug, PartialEq, Eq, Structural)]
pub struct Reading {
    /// Row id, assigned in insertion order starting at 1.
    pub id: usize,
    /// The sensor this reading belongs to.
    pub sensor_id: usize,
    pub co2: u32,
    pub temperature: u32,
    pub humidity: u32,
    pub lumen: u32,
    /// Capture time in milliseconds since the Unix epoch.
    pub reading_time: i64,
}

/// One registered sensor row.
#[derive(Debug)]
pub struct Sensor {
    /// Stable internal id, assigned by the store, unique.
    pub id: usize,
    /// External hardware identifier, unique, immutable.
    pub mac_address: String,
    /// Display label; defaults to the hardware address at creation.
    pub name: String,
    /// Capture time of the first accepted reading for this address.
    pub first_seen: i64,
}

impl View for Sensor {
    type V = SensorModel;

    open spec fn view(&self) -> SensorModel {
        SensorModel {
            id: self.id,
            mac_address: self.mac_address@,
            name: self.name@,
            first_seen: self.first_seen,
        }
    }
}

impl Clone for Sensor {
    fn clone(&self) -> (r: Self)
        ensures
            r == *self,
    {
        Sensor {
            id: self.id,
            mac_address: self.mac_address.clone(),
            name: self.name.clone(),
            first_seen: self.first_seen,
        }
    }
}

/// One snapshot entry: a sensor joined with its most recent reading.
#[derive(Debug)]
pub struct SensorWithValue {
    pub sensor: Sensor,
    pub value: Reading,
}

/// The in-memory store.
pub struct Store {
    pub sensors: Vec<Sensor>,
    pub readings: Vec<Reading>,
}

impl View for Store {
    type V = StoreModel;

    open spec fn view(&self) -> StoreModel {
        StoreModel {
            sensors: self.sensors@.map_values(|s: Sensor| s@),
            readings: self.readings@,
        }
    }
}

/// The entry pairs a sensor row of the store with that sensor's most recent
/// reading.
pub open spec fn entry_ok(m: StoreModel, e: SensorWithValue) -> bool {
    &&& 1 <= e.sensor.id <= m.sensors.len()
    &&& e.sensor@ == m.sensors[e.sensor.id - 1]
    &&& is_latest_for(m, e.sensor.id, e.value)
}

/// What the snapshot returns: for every sensor that has at least one reading,
/// exactly one entry with its most recent reading, ordered by display name.
pub open spec fn snapshot_ok(m: StoreModel, out: Seq<SensorWithValue>) -> bool {
    &&& forall|x: int| 0 <= x < out.len() ==> entry_ok(m, #[trigger] out[x])
    &&& forall|x: int, y: int|
        0 <= x < y < out.len() ==> lex_le(out[x].sensor@.name, out[y].sensor@.name)
    &&& forall|x: int, y: int|
        0 <= x < y < out.len() ==> out[x].sensor.id != out[y].sensor.id
    &&& forall|s: int|
        0 <= s < m.sensors.len() && has_reading(m, (#[trigger] m.sensors[s]).id)
            ==> exists|x: int| 0 <= x < out.len() && (#[trigger] out[x]).sensor.id
            == m.sensors[s].id
}

impl Store {
    /// Well-formedness of the store's contents.
    pub open spec fn wf(&self) -> bool {
        store_wf(self@)
    }

    /// An empty store.
    pub fn new() -> (s: Store)
        ensures
            s.wf(),
            s@.sensors.len() == 0,
            s@.readings.len() == 0,
    {
        Store { sensors: Vec::new(), readings: Vec::new() }
    }

    /// Point lookup of a sensor id by unique hardware address; absent if the
    /// address was never seen.
    pub fn find_sensor_id(&self, mac_address: &str) -> (r: Option<usize>)
        requires
            self.wf(),
        ensures
            match r {
                Some(id) => addr_known(self@, mac_address@) && id == id_of_addr(
                    self@,
                    mac_address@,
                ),
                None => !addr_known(self@, mac_address@),
            },
    {
        let n = self.sensors.len();
        let mut i: usize = 0;
        while i < n
            invariant
                self.wf(),
                n == self.sensors.len(),
                i <= n,
                forall|j: int|
                    0 <= j < i ==> (#[trigger] self@.sensors[j]).mac_address != mac_address@,
            decreases n - i,
        {
            proof {
                assert(self@.sensors[i as int] == self.sensors@[i as int]@);
            }
            if str_eq(self.sensors[i].mac_address.as_str(), mac_address) {
                proof {
                    assert(self@.sensors[i as int].mac_address == mac_address@);
                    let j = crate::model::addr_ix(self@, mac_address@);
                    assert(0 <= j < self@.sensors.len() && self@.sensors[j].mac_address
                        == mac_address@);
                    assert(j == i as int);
                }
                return Some(self.sensors[i].id);
            }
            i = i + 1;
        }
        proof {
            assert(!addr_known(self@, mac_address@)) by {
                if addr_known(self@, mac_address@) {
                    let j = crate::model::addr_ix(self@, mac_address@);
                    assert(self@.sensors[j].mac_address != mac_address@);
                }
            }
        }
        None
    }

    /// Inserts a new sensor row for a never-before-seen address, with the
    /// display name defaulting to the address; fails with a unique constraint
    /// violation when a row for the address already exists, and with an I/O
    /// failure when the table is at capacity.
    pub fn insert_sensor(&mut self, mac_address: &str, first_seen: i64) -> (r: Result<
        usize,
        StorageError,
    >)
        requires
            old(self).wf(),
            ts_in_window(first_seen),
        ensures
            final(self).wf(),
            match r {
                Ok(id) => !addr_known(old(self)@, mac_address@) && old(self)@.sensors.len()
                    < STORE_CAP && final(self)@ == resolve_model(
                    old(self)@,
                    mac_address@,
                    first_seen,
                ).0 && id == resolve_model(old(self)@, mac_address@, first_seen).1,
                Err(e) => *final(self) == *old(self) && (if addr_known(old(self)@, mac_address@) {
                    e == StorageError::UniqueViolation
                } else {
                    e == StorageError::Io && old(self)@.sensors.len() >= STORE_CAP
                }),
            },
    {
        match self.find_sensor_id(mac_address) {
            Some(_) => Err(StorageError::UniqueViolation),
            None => {
                if self.sensors.len() >= STORE_CAP {
                    return Err(StorageError::Io);
                }
                let id = self.sensors.len() + 1;
                let row = Sensor {
                    id,
                    mac_address: mac_address.to_owned(),
                    name: mac_address.to_owned(),
                    first_seen,
                };
                self.sensors.push(row);
                proof {
                    assert(final(self)@.sensors =~= resolve_model(
                        old(self)@,
                        mac_address@,
                        first_seen,
                    ).0.sensors);
                    assert(final(self)@ =~= resolve_model(
                        old(self)@,
                        mac_address@,
                        first_seen,
                    ).0);
                }
                Ok(id)
            },
        }
    }

    /// Appends one immutable reading row; fails with a foreign key violation
    /// when the sensor id does not reference an existing sensor, and with an
    /// I/O failure when the table is at capacity.
    pub fn insert_sensor_value(&mut self, sensor_id: usize, value: SensorValue) -> (r: Result<
        usize,
        StorageError,
    >)
        requires
            old(self).wf(),
            ts_in_window(value.reading_time),
        ensures
            final(self).wf(),
            match r {
                Ok(id) => 1 <= sensor_id <= old(self)@.sensors.len() && old(self)@.readings.len()
                    < STORE_CAP && final(self)@ == append_model(old(self)@, sensor_id, value).0
                    && id == append_model(old(self)@, sensor_id, value).1,
                Err(e) => *final(self) == *old(self) && (if 1 <= sensor_id <= old(
                    self,
                )@.sensors.len() {
                    e == StorageError::Io && old(self)@.readings.len() >= STORE_CAP
                } else {
                    e == StorageError::ForeignKeyViolation
                }),
            },
    {
        if sensor_id == 0 || sensor_id > self.sensors.len() {
            return Err(StorageError::ForeignKeyViolation);
        }
        if self.readings.len() >= STORE_CAP {
            return Err(StorageError::Io);
        }
        let id = self.readings.len() + 1;
        let row = Reading {
            id,
            sensor_id,
            co2: value.co2,
            temperature: value.temperature,
            humidity: value.humidity,
            lumen: value.lumen,
            reading_time: value.reading_time,
        };
        self.readings.push(row);
        proof {
            assert(final(self)@ =~= append_model(old(self)@, sensor_id, value).0);
        }
        Ok(id)
    }

    /// The sensor's most recent reading (ties on capture time broken by the
    /// highest reading id); absent if the sensor has no readings.
    pub fn latest_for(&self, sensor_id: usize) -> (r: Option<Reading>)
        requires
            self.wf(),
        ensures
            match r {
                Some(b) => is_latest_for(self@, sensor_id, b),
                None => !has_reading(self@, sensor_id),
            },
    {
        let n = self.readings.len();
        let mut best: Option<Reading> = None;
        let mut k: usize = 0;
        while k < n
            invariant
                self.wf(),
                n == self.readings.len(),
                k <= n,
                match best {
                    Some(b) => {
                        &&& exists|j: int|
                            0 <= j < k && self@.readings[j] == b && b.sensor_id == sensor_id
                        &&& forall|j: int|
                            0 <= j < k && (#[trigger] self@.readings[j]).sensor_id == sensor_id
                                ==> !later(self@.readings[j], b)
                    },
                    None => forall|j: int|
                        0 <= j < k ==> (#[trigger] self@.readings[j]).sensor_id != sensor_id,
                },
            decreases n - k,
        {
            let row = self.readings[k];
            if row.sensor_id == sensor_id {
                match best {
                    None => {
                        best = Some(row);
                    },
                    Some(b) => {
                        if row.reading_time > b.reading_time || (row.reading_time
                            == b.reading_time && row.id > b.id) {
                            best = Some(row);
                        }
                    },
                }
            }
            k = k + 1;
        }
        proof {
            if best is Some {
                let b = best->0;
                let j = choose|j: int|
                    0 <= j < n && self@.readings[j] == b && b.sensor_id == sensor_id;
                assert(self@.readings.contains(b));
            }
        }
        best
    }

    /// The sensor joined with its most recent reading; absent if the sensor
    /// id is unknown or the sensor has no readings yet.
    pub fn get_sensor_with_last_value(&self, sensor_id: usize) -> (r: Option<SensorWithValue>)
        requires
            self.wf(),
        ensures
            match r {
                Some(e) => {
                    &&& 1 <= sensor_id <= self@.sensors.len()
                    &&& e.sensor.id == sensor_id
                    &&& e.sensor@ == self@.sensors[sensor_id - 1]
                    &&& is_latest_for(self@, sensor_id, e.value)
                },
                None => !(1 <= sensor_id <= self@.sensors.len() && has_reading(
                    self@,
                    sensor_id,
                )),
            },
    {
        if sensor_id == 0 || sensor_id > self.sensors.len() {
            return None;
        }
        match self.latest_for(sensor_id) {
            None => None,
            Some(value) => {
                let sensor = self.sensors[sensor_id - 1].clone();
                proof {
                    assert(self@.sensors[sensor_id - 1] == self.sensors@[sensor_id - 1]@);
                }
                Some(SensorWithValue { sensor, value })
            },
        }
    }

    /// All readings of the sensor captured inside the closed interval
    /// `[from, to]`, in ascending capture time order (ties broken by reading
    /// id).  Empty, not an error, when none match or the sensor is unknown.
    pub fn get_sensor_values(&self, sensor_id: usize, from: i64, to: i64) -> (r: Vec<Reading>)
        requires
            self.wf(),
        ensures
            range_result_ok(self@, sensor_id, from as int, to as int, r@),
    {
        let n = self.readings.len();
        let mut out: Vec<Reading> = Vec::new();
        let mut k: usize = 0;
        while k < n
            invariant
                self.wf(),
                n == self.readings.len(),
                k <= n,
                forall|i: int, j: int| 0 <= i < j < out@.len() ==> later(out@[j], out@[i]),
                forall|i: int|
                    0 <= i < out@.len() ==> self@.readings.contains(#[trigger] out@[i]) && in_range(
                        out@[i],
                        sensor_id,
                        from as int,
                        to as int,
                    ),
                forall|i: int| 0 <= i < out@.len() ==> (#[trigger] out@[i]).id <= k,
                forall|j: int|
                    0 <= j < k && in_range(#[trigger] self@.readings[j], sensor_id, from as int, to as int)
                        ==> out@.contains(self@.readings[j]),
            decreases n - k,
        {
            let row = self.readings[k];
            if row.sensor_id == sensor_id && from <= row.reading_time && row.reading_time <= to {
                proof {
                    assert(row.id == k + 1);
                }
                let ghost prev = out@;
                let (next, p) = insert_by_time(out, row);
                out = next;
                proof {
                    assert forall|j: int|
                        0 <= j < k + 1 && in_range(
                            #[trigger] self@.readings[j],
                            sensor_id,
                            from as int,
                            to as int,
                        ) implies out@.contains(self@.readings[j]) by {
                        if j < k {
                            let i = choose|i: int|
                                0 <= i < prev.len() && prev[i] == self@.readings[j];
                            if i < p {
                                assert(out@[i] == self@.readings[j]);
                            } else {
                                assert(out@[i + 1] == self@.readings[j]);
                            }
                        } else {
                            assert(out@[p as int] == row);
                        }
                    }
                }
            }
            k = k + 1;
        }
        out
    }

    /// For every sensor with at least one reading, its most recent reading,
    /// ordered by display name ascending.
    pub fn get_sensors_with_last_value(&self) -> (r: Vec<SensorWithValue>)
        requires
            self.wf(),
        ensures
            snapshot_ok(self@, r@),
    {
        let n = self.sensors.len();
        let mut out: Vec<SensorWithValue> = Vec::new();
        let mut i: usize = 0;
        while i < n
            invariant
                self.wf(),
                n == self.sensors.len(),
                i <= n,
                forall|x: int| 0 <= x < out@.len() ==> entry_ok(self@, #[trigger] out@[x]),
                forall|x: int, y: int|
                    0 <= x < y < out@.len() ==> lex_le(
                        out@[x].sensor@.name,
                        out@[y].sensor@.name,
                    ),
                forall|x: int, y: int|
                    0 <= x < y < out@.len() ==> out@[x].sensor.id != out@[y].sensor.id,
                forall|x: int| 0 <= x < out@.len() ==> (#[trigger] out@[x]).sensor.id <= i,
                forall|s: int|
                    0 <= s < i && has_reading(self@, (#[trigger] self@.sensors[s]).id)
                        ==> exists|x: int|
                        0 <= x < out@.len() && (#[trigger] out@[x]).sensor.id
                            == self@.sensors[s].id,
            decreases n - i,
        {
            let sid = self.sensors[i].id;
            proof {
                assert(self@.sensors[i as int] == self.sensors@[i as int]@);
                assert(sid == i + 1);
            }
            match self.latest_for(sid) {
                None => {},
                Some(value) => {
                    let sensor = self.sensors[i].clone();
                    let entry = SensorWithValue { sensor, value };
                    let ghost prev = out@;
                    let (next, p) = insert_by_name(out, entry);
                    out = next;
                    proof {
                        assert(entry_ok(self@, entry));
                        assert forall|s: int|
                            0 <= s < i + 1 && has_reading(
                                self@,
                                (#[trigger] self@.sensors[s]).id,
                            ) implies exists|x: int|
                            0 <= x < out@.len() && (#[trigger] out@[x]).sensor.id
                                == self@.sensors[s].id by {
                            if s < i {
                                let x = choose|x: int|
                                    0 <= x < prev.len() && (#[trigger] prev[x]).sensor.id
                                        == self@.sensors[s].id;
                                if x < p {
                                    assert(out@[x].sensor.id == self@.sensors[s].id);
                                } else {
                                    assert(out@[x + 1].sensor.id == self@.sensors[s].id);
                                }
                            } else {
                                assert(out@[p as int].sensor.id == self@.sensors[s].id);
                            }
                        }
                    }
                },
            }
            i = i + 1;
        }
        out
    }
}

/// Inserts a reading into a sequence kept in strictly ascending
/// `(reading_time, id)` order, returning the new sequence and the insertion
/// position.
fn insert_by_time(v: Vec<Reading>, e: Reading) -> (r: (Vec<Reading>, usize))
    requires
        forall|i: int, j: int| 0 <= i < j < v@.len() ==> later(v@[j], v@[i]),
        forall|i: int| 0 <= i < v@.len() ==> (#[trigger] v@[i]).id != e.id,
    ensures
        r.1 <= v@.len(),
        r.0@ == v@.insert(r.1 as int, e),
        forall|i: int, j: int| 0 <= i < j < r.0@.len() ==> later(r.0@[j], r.0@[i]),
{
    let mut v = v;
    let n = v.len();
    let mut p: usize = 0;
    loop
        invariant_except_break
            p <= n,
            n == v@.len(),
            forall|i: int| 0 <= i < v@.len() ==> (#[trigger] v@[i]).id != e.id,
            forall|i: int| 0 <= i < p ==> later(e, v@[i]),
        ensures
            p <= n,
            n == v@.len(),
            forall|i: int| 0 <= i < p ==> later(e, v@[i]),
            p < n ==> later(v@[p as int], e),
        decreases n - p,
    {
        if p == n {
            break ;
        }
        let c = v[p];
        if e.reading_time > c.reading_time || (e.reading_time == c.reading_time && e.id > c.id) {
            p = p + 1;
        } else {
            proof {
                assert(c.id != e.id);
                assert(later(c, e));
            }
            break ;
        }
    }
    let ghost prev = v@;
    v.insert(p, e);
    proof {
        assert forall|i: int, j: int| 0 <= i < j < v@.len() implies later(v@[j], v@[i]) by {
            assert(v@ == prev.insert(p as int, e));
            if j < p {
            } else if i > p {
            } else if j == p {
                assert(v@[i] == prev[i] && v@[j] == e);
            } else if i == p {
                assert(v@[j] == prev[j - 1] && v@[i] == e);
                assert(later(prev[p as int], e));
                if j - 1 > p {
                    assert(later(prev[j - 1], prev[p as int]));
                }
            } else {
                assert(v@[i] == prev[i] && v@[j] == prev[j - 1]);
            }
        }
    }
    (v, p)
}

/// Inserts a snapshot entry into a sequence kept in ascending display name
/// order, returning the new sequence and the insertion position.
fn insert_by_name(v: Vec<SensorWithValue>, e: SensorWithValue) -> (r: (
    Vec<SensorWithValue>,
    usize,
))
    requires
        forall|x: int, y: int|
            0 <= x < y < v@.len() ==> lex_le(v@[x].sensor@.name, v@[y].sensor@.name),
    ensures
        r.1 <= v@.len(),
        r.0@ == v@.insert(r.1 as int, e),
        forall|x: int, y: int|
            0 <= x < y < r.0@.len() ==> lex_le(r.0@[x].sensor@.name, r.0@[y].sensor@.name),
{
    let mut v = v;
    let n = v.len();
    let mut p: usize = 0;
    loop
        invariant_except_break
            p <= n,
            n == v@.len(),
            forall|x: int| 0 <= x < p ==> lex_le(v@[x].sensor@.name, e.sensor@.name),
        ensures
            p <= n,
            n == v@.len(),
            forall|x: int| 0 <= x < p ==> lex_le(v@[x].sensor@.name, e.sensor@.name),
            p < n ==> lex_le(e.sensor@.name, v@[p as int].sensor@.name),
        decreases n - p,
    {
        if p == n {
            break ;
        }
        if str_le(v[p].sensor.name.as_str(), e.sensor.name.as_str()) {
            p = p + 1;
        } else {
            proof {
                lemma_lex_le_total(v@[p as int].sensor@.name, e.sensor@.name);
            }
            break ;
        }
    }
    let ghost prev = v@;
    v.insert(p, e);
    proof {
        assert forall|x: int, y: int| 0 <= x < y < v@.len() implies lex_le(
            v@[x].sensor@.name,
            v@[y].sensor@.name,
        ) by {
            assert(v@ == prev.insert(p as int, e));
            if y < p {
            } else if x > p {
            } else if y == p {
                assert(v@[x] == prev[x] && v@[y] == e);
            } else if x == p {
                assert(v@[y] == prev[y - 1] && v@[x] == e);
                if y - 1 > p {
                    lemma_lex_le_trans(
                        e.sensor@.name,
                        prev[p as int].sensor@.name,
                        prev[y - 1].sensor@.name,
                    );
                }
            } else {
                assert(v@[x] == prev[x] && v@[y] == prev[y - 1]);
            }
        }
    }
    (v, p)
}

} // verus!
