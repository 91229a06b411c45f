//! Mathematical model of the store.
//!
//! Rows are modelled as sequences: one sensor row per distinct hardware
//! address, and append-only reading rows.  The executable store operations
//! promise, clause by clause, that they realise the transitions written here.
use vstd::prelude::*;

use crate::store::{Reading, SensorValue};
use crate::time::ts_in_window;

verus! {

/// Image of one sensor row.
#[verifier::ext_equal]
pub ghost struct SensorModel {
    pub id: usize,
    pub mac_address: Seq<char>,
    pub name: Seq<char>,
    pub first_seen: i64,
}

/// Image of the whole store: sensor rows and reading rows, in insertion order.
#[verifier::ext_equal]
pub ghost struct StoreModel {
    pub sensors: Seq<SensorModel>,
    pub readings: Seq<Reading>,
}

/// Capacity of either table.  Appends beyond it fail with an I/O error, so
/// that id assignment can never overflow on any platform.
pub const STORE_CAP: usize = 0x7fffffff;

/// Well-formedness of the store.
///
/// Row ids are assigned in insertion order starting at 1; hardware addresses
/// are unique; the display name is the address (there is no naming flow);
/// every reading references an existing sensor; every timestamp lies in the
/// persistable window.
pub open spec fn store_wf(m: StoreModel) -> bool {
    &&& m.sensors.len() <= STORE_CAP
    &&& m.readings.len() <= STORE_CAP
    &&& forall|i: int|
        0 <= i < m.sensors.len() ==> (#[trigger] m.sensors[i]).id == i + 1
    &&& forall|i: int|
        0 <= i < m.sensors.len() ==> ts_in_window((#[trigger] m.sensors[i]).first_seen)
    &&& forall|i: int|
        0 <= i < m.sensors.len() ==> (#[trigger] m.sensors[i]).name == m.sensors[i].mac_address
    &&& forall|i: int, j: int|
        0 <= i < j < m.sensors.len() ==> m.sensors[i].mac_address != m.sensors[j].mac_address
    &&& forall|k: int|
        0 <= k < m.readings.len() ==> (#[trigger] m.readings[k]).id == k + 1
    &&& forall|k: int|
        0 <= k < m.readings.len() ==> 1 <= (#[trigger] m.readings[k]).sensor_id
            <= m.sensors.len()
    &&& forall|k: int|
        0 <= k < m.readings.len() ==> ts_in_window((#[trigger] m.readings[k]).reading_time)
}

/// Some sensor row carries this hardware address.
pub open spec fn addr_known(m: StoreModel, mac: Seq<char>) -> bool {
    exists|i: int| 0 <= i < m.sensors.len() && (#[trigger] m.sensors[i]).mac_address == mac
}

/// Index of the sensor row carrying this address (unique under `store_wf`).
pub open spec fn addr_ix(m: StoreModel, mac: Seq<char>) -> int {
    choose|i: int| 0 <= i < m.sensors.len() && (#[trigger] m.sensors[i]).mac_address == mac
}

/// Id of the sensor row carrying this address.
pub open spec fn id_of_addr(m: StoreModel, mac: Seq<char>) -> usize {
    m.sensors[addr_ix(m, mac)].id
}

/// The sensor row a fresh registration appends for this address: the display
/// name defaults to the hardware address.
pub open spec fn new_sensor(m: StoreModel, mac: Seq<char>, first_seen: i64) -> SensorModel {
    SensorModel {
        id: (m.sensors.len() + 1) as usize,
        mac_address: mac,
        name: mac,
        first_seen: first_seen,
    }
}

/// Identity resolution: return the id of the existing row for this address,
/// or append one row with `first_seen = observed_at` and return its id.
pub open spec fn resolve_model(m: StoreModel, mac: Seq<char>, observed_at: i64) -> (
    StoreModel,
    usize,
) {
    if addr_known(m, mac) {
        (m, id_of_addr(m, mac))
    } else {
        (
            StoreModel { sensors: m.sensors.push(new_sensor(m, mac, observed_at)), ..m },
            (m.sensors.len() + 1) as usize,
        )
    }
}

/// Appending one immutable reading row for an existing sensor.
pub open spec fn append_model(m: StoreModel, sensor_id: usize, value: SensorValue) -> (
    StoreModel,
    usize,
) {
    (
        StoreModel {
            readings: m.readings.push(
                Reading {
                    id: (m.readings.len() + 1) as usize,
                    sensor_id: sensor_id,
                    co2: value.co2,
                    temperature: value.temperature,
                    humidity: value.humidity,
                    lumen: value.lumen,
                    reading_time: value.reading_time,
                },
            ),
            ..m
        },
        (m.readings.len() + 1) as usize,
    )
}

/// Ingestion: resolve the identity, then append the reading.
pub open spec fn ingest_model(m: StoreModel, mac: Seq<char>, value: SensorValue) -> (
    StoreModel,
    usize,
) {
    let (m1, sid) = resolve_model(m, mac, value.reading_time);
    append_model(m1, sid, value)
}

/// `a` comes strictly after `b`: later capture time, ties broken by the
/// higher reading id.
pub open spec fn later(a: Reading, b: Reading) -> bool {
    a.reading_time > b.reading_time || (a.reading_time == b.reading_time && a.id > b.id)
}

/// The sensor has at least one reading.
pub open spec fn has_reading(m: StoreModel, sensor_id: usize) -> bool {
    exists|k: int| 0 <= k < m.readings.len() && (#[trigger] m.readings[k]).sensor_id == sensor_id
}

/// `r` is the sensor's most recent reading (ties broken by highest id).
pub open spec fn is_latest_for(m: StoreModel, sensor_id: usize, r: Reading) -> bool {
    &&& m.readings.contains(r)
    &&& r.sensor_id == sensor_id
    &&& forall|k: int|
        0 <= k < m.readings.len() && (#[trigger] m.readings[k]).sensor_id == sensor_id
            ==> !later(m.readings[k], r)
}

/// The sensor's most recent reading (meaningful when `has_reading` holds;
/// unique under `store_wf`).
pub open spec fn latest_of(m: StoreModel, sensor_id: usize) -> Reading {
    choose|r: Reading| is_latest_for(m, sensor_id, r)
}

/// `r` lies in the closed interval `[from, to]` and belongs to the sensor.
pub open spec fn in_range(r: Reading, sensor_id: usize, from: int, to: int) -> bool {
    r.sensor_id == sensor_id && from <= r.reading_time <= to
}

/// What a range query returns: exactly the readings of the sensor captured
/// inside the closed interval, in strictly ascending `(reading_time, id)`
/// order.
pub open spec fn range_result_ok(
    m: StoreModel,
    sensor_id: usize,
    from: int,
    to: int,
    out: Seq<Reading>,
) -> bool {
    &&& forall|i: int|
        0 <= i < out.len() ==> m.readings.contains(#[trigger] out[i]) && in_range(
            out[i],
            sensor_id,
            from,
            to,
        )
    &&& forall|k: int|
        0 <= k < m.readings.len() && in_range(#[trigger] m.readings[k], sensor_id, from, to)
            ==> out.contains(m.readings[k])
    &&& forall|i: int, j: int| 0 <= i < j < out.len() ==> later(out[j], out[i])
}

} // verus!
