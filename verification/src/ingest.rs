//! The ingestion service: accept one decoded measurement and durably record
//! it, registering the sensor's identity on first contact.
use vstd::prelude::*;

use crate::clock::current_millis;
use crate::model::{addr_known, ingest_model, resolve_model, STORE_CAP};
use crate::resolver::resolve;
use crate::store::{SensorValue, StorageError, Store};
use crate::time::{ts_in_window, TS_MAX, TS_MIN};

verus! {

/// A storage failure during ingestion, attributable to the hardware address
/// and capture time it concerned.
#[derive(Debug)]
pub struct IngestionError {
    pub mac_address: String,
    pub observed_at: i64,
    pub cause: StorageError,
}

/// Resolves the sensor's identity, then appends the reading.
///
/// A new sensor row may be created as a side effect of a single submission:
/// lazy registration, not an error.  When the append fails, the identity that
/// was created is not rolled back — a sensor without readings is harmless —
/// but the caller is still told that ingestion failed, with the address and
/// capture time attached.
pub fn ingest(store: &mut Store, mac_address: &str, value: SensorValue) -> (r: Result<
    usize,
    IngestionError,
>)
    requires
        old(store).wf(),
        ts_in_window(value.reading_time),
    ensures
        final(store).wf(),
        r is Ok <==> ((addr_known(old(store)@, mac_address@) || old(store)@.sensors.len()
            < STORE_CAP) && old(store)@.readings.len() < STORE_CAP),
        match r {
            Ok(id) => final(store)@ == ingest_model(old(store)@, mac_address@, value).0 && id
                == ingest_model(old(store)@, mac_address@, value).1,
            Err(e) => e.cause == StorageError::Io && e.mac_address@ == mac_address@
                && e.observed_at == value.reading_time && final(store)@.readings == old(
                store,
            )@.readings && (*final(store) == *old(store) || final(store)@ == resolve_model(
                old(store)@,
                mac_address@,
                value.reading_time,
            ).0),
        },
{
    match resolve(store, mac_address, value.reading_time) {
        Err(e) => Err(
            IngestionError {
                mac_address: mac_address.to_owned(),
                observed_at: value.reading_time,
                cause: e,
            },
        ),
        Ok(sensor_id) => {
            proof {
                let m1 = resolve_model(old(store)@, mac_address@, value.reading_time).0;
                if addr_known(old(store)@, mac_address@) {
                    let j = crate::model::addr_ix(old(store)@, mac_address@);
                    assert(old(store)@.sensors[j].id == j + 1);
                }
                assert(1 <= sensor_id <= store@.sensors.len());
            }
            match store.insert_sensor_value(sensor_id, value) {
                Ok(id) => Ok(id),
                Err(e) => Err(
                    IngestionError {
                        mac_address: mac_address.to_owned(),
                        observed_at: value.reading_time,
                        cause: e,
                    },
                ),
            }
        },
    }
}

/// Accepts one decoded measurement, stamps it with the server-observed
/// capture time truncated (floor, millisecond precision) from the wall
/// clock, and records it; returns the reading id and the stamped time.
/// Fails, with the address and time attached, when the clock cannot be read
/// or reads outside the persistable window (the failure is then attributed
/// to the epoch or to the out-of-window stamp), or the store is at capacity.
pub fn ingest_now(
    store: &mut Store,
    mac_address: &str,
    co2: u32,
    temperature: u32,
    humidity: u32,
    lumen: u32,
) -> (r: Result<(usize, i64), IngestionError>)
    requires
        old(store).wf(),
    ensures
        final(store).wf(),
        match r {
            Ok(p) => ts_in_window(p.1) && final(store)@ == ingest_model(
                old(store)@,
                mac_address@,
                (SensorValue {
                    co2: co2,
                    temperature: temperature,
                    humidity: humidity,
                    lumen: lumen,
                    reading_time: p.1,
                }),
            ).0 && p.0 == ingest_model(
                old(store)@,
                mac_address@,
                (SensorValue {
                    co2: co2,
                    temperature: temperature,
                    humidity: humidity,
                    lumen: lumen,
                    reading_time: p.1,
                }),
            ).1,
            Err(e) => e.cause == StorageError::Io && e.mac_address@ == mac_address@
                && final(store)@.readings == old(store)@.readings && (*final(store) == *old(
                store,
            ) || final(store)@ == resolve_model(old(store)@, mac_address@, e.observed_at).0),
        },
{
    let t = match current_millis() {
        None => {
            // The clock itself could not be read: no capture time exists, so
            // the failure is attributed to the epoch.
            return Err(
                IngestionError {
                    mac_address: mac_address.to_owned(),
                    observed_at: 0,
                    cause: StorageError::Io,
                },
            );
        },
        Some(t) => t,
    };
    if t < TS_MIN || t > TS_MAX {
        return Err(
            IngestionError {
                mac_address: mac_address.to_owned(),
                observed_at: t,
                cause: StorageError::Io,
            },
        );
    }
    let value = SensorValue { co2, temperature, humidity, lumen, reading_time: t };
    match ingest(store, mac_address, value) {
        Ok(id) => Ok((id, t)),
        Err(e) => Err(e),
    }
}

} // verus!
