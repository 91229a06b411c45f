//! The query service: read-only views for dashboards.
use vstd::prelude::*;

use crate::clock::{current_millis, local_civil_date, local_day_bounds};
use crate::date::{next_date, next_date_of, prev_date, prev_date_of, valid_date, CivilDate};
use crate::model::{
    has_reading, is_latest_for, later, latest_of, range_result_ok, store_wf, StoreModel,
};
use crate::store::{snapshot_ok, Reading, Sensor, SensorWithValue, StorageError, Store};
use crate::time::{ts_in_window, DAY_MS, TS_MAX, TS_MIN};

verus! {

/// A query failure: the referenced sensor does not exist (an explicit "no
/// such sensor" outcome), or the storage layer failed.
#[derive(Clone, Copy, Debug, PartialEq, Eq, Structural)]
pub enum QueryError {
    NotFound,
    Storage(StorageError),
}

/// The detail view of one sensor: the sensor joined with its most recent
/// reading, the readings of the viewed window, and the adjacent calendar
/// dates for navigation.
#[derive(Debug)]
pub struct DetailView {
    pub sensor: Sensor,
    pub value: Reading,
    pub values: Vec<Reading>,
    /// First instant of the viewed window, inclusive.
    pub from: i64,
    /// Last instant of the viewed window, inclusive.
    pub to: i64,
    pub prev: CivilDate,
    pub next: Option<CivilDate>,
}

/// Two readings both latest for the sensor are the same reading.
pub proof fn lemma_latest_unique(m: StoreModel, sensor_id: usize, r1: Reading, r2: Reading)
    requires
        store_wf(m),
        is_latest_for(m, sensor_id, r1),
        is_latest_for(m, sensor_id, r2),
    ensures
        r1 == r2,
{
    let k1 = choose|k: int| 0 <= k < m.readings.len() && m.readings[k] == r1;
    let k2 = choose|k: int| 0 <= k < m.readings.len() && m.readings[k] == r2;
    assert(m.readings[k1] == r1 && m.readings[k2] == r2);
    assert(!later(r1, r2) && !later(r2, r1)) by {
        assert(m.readings[k1].sensor_id == sensor_id);
        assert(m.readings[k2].sensor_id == sensor_id);
    }
    assert(r1.id == k1 + 1 && r2.id == k2 + 1);
    assert(k1 == k2);
}

/// The current snapshot of all sensors: for every sensor with at least one
/// reading, exactly one entry with its most recent reading, ordered by
/// display name.
pub fn snapshot(store: &Store) -> (r: Vec<SensorWithValue>)
    requires
        store.wf(),
    ensures
        snapshot_ok(store@, r@),
{
    store.get_sensors_with_last_value()
}

/// The history of one sensor.  With an explicit closed interval, its
/// readings inside the interval; with none, the 24 hours ending at the
/// sensor's latest reading time (not wall-clock now), so that a sensor with
/// stale data still shows its most recent day of activity.  Empty when the
/// sensor is unknown or has no readings.
pub fn history(store: &Store, sensor_id: usize, range: Option<(i64, i64)>) -> (r: Vec<Reading>)
    requires
        store.wf(),
    ensures
        match range {
            Some(b) => range_result_ok(store@, sensor_id, b.0 as int, b.1 as int, r@),
            None => if has_reading(store@, sensor_id) {
                range_result_ok(
                    store@,
                    sensor_id,
                    latest_of(store@, sensor_id).reading_time - DAY_MS,
                    latest_of(store@, sensor_id).reading_time as int,
                    r@,
                )
            } else {
                r@.len() == 0
            },
        },
{
    match range {
        Some(b) => store.get_sensor_values(sensor_id, b.0, b.1),
        None => match store.latest_for(sensor_id) {
            None => Vec::new(),
            Some(b) => {
                proof {
                    assert(has_reading(store@, sensor_id)) by {
                        let k = choose|k: int|
                            0 <= k < store@.readings.len() && store@.readings[k] == b;
                        assert(store@.readings[k].sensor_id == sensor_id);
                    }
                    lemma_latest_unique(store@, sensor_id, b, latest_of(store@, sensor_id));
                    assert(ts_in_window(b.reading_time)) by {
                        let k = choose|k: int|
                            0 <= k < store@.readings.len() && store@.readings[k] == b;
                        assert(ts_in_window(store@.readings[k].reading_time));
                    }
                }
                store.get_sensor_values(sensor_id, b.reading_time - DAY_MS, b.reading_time)
            },
        },
    }
}

/// The next calendar date to offer from a requested date: only a non-today
/// historical date has one; there is no next from today's view.
fn next_for(d: CivilDate, today: CivilDate) -> (r: Option<CivilDate>)
    requires
        valid_date(d),
        1 <= d.year <= 9998,
    ensures
        r == if d == today {
            None::<CivilDate>
        } else {
            Some(next_date_of(d))
        },
{
    if d == today {
        None
    } else {
        Some(next_date(d))
    }
}

/// The detail view of one sensor.
///
/// Unknown sensors (and sensors with no readings yet, whose join is empty)
/// are an explicit not-found outcome, never a generic failure.  With a
/// requested calendar date, the window is that date's local start through
/// end of day, the previous date is always offered, and the next date only
/// when the viewed date is not today; a storage failure is reported when the
/// local time zone cannot place the date or yields an incoherent day window
/// (its end before its start).  With no requested date, the
/// window is the 24 hours ending at the latest reading, the previous date is
/// the day before that reading's local date, and no next date is offered.
pub fn detail(store: &Store, sensor_id: usize, date: Option<CivilDate>) -> (r: Result<
    DetailView,
    QueryError,
>)
    requires
        store.wf(),
        match date {
            Some(d) => valid_date(d) && 1 <= d.year <= 9998,
            None => true,
        },
    ensures
        (r matches Err(e) && e == QueryError::NotFound) <==> !(1 <= sensor_id
            <= store@.sensors.len() && has_reading(store@, sensor_id)),
        match r {
            Err(e) => e == QueryError::NotFound || (e == QueryError::Storage(StorageError::Io)
                && date is Some),
            Ok(v) => {
                &&& v.sensor.id == sensor_id
                &&& v.sensor@ == store@.sensors[sensor_id - 1]
                &&& is_latest_for(store@, sensor_id, v.value)
                &&& range_result_ok(store@, sensor_id, v.from as int, v.to as int, v.values@)
                &&& match date {
                    Some(d) => {
                        &&& v.from <= v.to
                        &&& v.prev == prev_date_of(d)
                        &&& (v.next is None || v.next == Some(next_date_of(d)))
                    },
                    None => {
                        &&& v.from == v.value.reading_time - DAY_MS
                        &&& v.to == v.value.reading_time
                        &&& valid_date(v.prev)
                        &&& (exists|ld: CivilDate| valid_date(ld) && v.prev == prev_date_of(ld))
                        &&& v.next is None
                    },
                }
            },
        },
{
    let joined = store.get_sensor_with_last_value(sensor_id);
    match joined {
        None => Err(QueryError::NotFound),
        Some(e) => {
            match date {
                Some(d) => match local_day_bounds(d) {
                    None => Err(QueryError::Storage(StorageError::Io)),
                    Some(b) => {
                        if b.0 > b.1 {
                            // A time zone anomaly left the day's end before
                            // its start: no coherent window exists.
                            return Err(QueryError::Storage(StorageError::Io));
                        }
                        let values = store.get_sensor_values(sensor_id, b.0, b.1);
                        // When the clock cannot be read, or reads outside the
                        // persistable window, the viewed date is treated as
                        // current: no next day is offered.
                        let today = match current_millis() {
                            Some(now) => if TS_MIN <= now && now <= TS_MAX {
                                local_civil_date(now)
                            } else {
                                d
                            },
                            None => d,
                        };
                        let prev = prev_date(d);
                        let next = next_for(d, today);
                        Ok(DetailView { sensor: e.sensor, value: e.value, values, from: b.0, to: b.1, prev, next })
                    },
                },
                None => {
                    let t_latest = e.value.reading_time;
                    proof {
                        assert(ts_in_window(t_latest)) by {
                            let k = choose|k: int|
                                0 <= k < store@.readings.len() && store@.readings[k] == e.value;
                            assert(ts_in_window(store@.readings[k].reading_time));
                        }
                    }
                    let values = store.get_sensor_values(
                        sensor_id,
                        t_latest - DAY_MS,
                        t_latest,
                    );
                    let ld = local_civil_date(t_latest);
                    let prev = prev_date(ld);
                    Ok(
                        DetailView {
                            sensor: e.sensor,
                            value: e.value,
                            values,
                            from: t_latest - DAY_MS,
                            to: t_latest,
                            prev,
                            next: None,
                        },
                    )
                },
            }
        },
    }
}

} // verus!
