use sensorlog::{
    detail, history, ingest, snapshot, CivilDate, QueryError, SensorValue, Store, DAY_MS,
};

fn value(co2: f32, temperature: f32, humidity: f32, lumen: f32, t: i64) -> SensorValue {
    SensorValue {
        co2: co2.to_bits(),
        temperature: temperature.to_bits(),
        humidity: humidity.to_bits(),
        lumen: lumen.to_bits(),
        reading_time: t,
    }
}

#[test]
fn ingest_scenario_creates_then_reuses_the_sensor() {
    // Noon and five past noon, 2024-05-01 UTC, in epoch milliseconds.
    let t1: i64 = 1714564800000;
    let t2: i64 = 1714565100000;
    let mut store = Store::new();

    ingest(&mut store, "AA:BB", value(450.0, 21.5, 40.0, 300.0, t1)).unwrap();
    assert_eq!(store.sensors.len(), 1);
    assert_eq!(store.sensors[0].first_seen, t1);
    assert_eq!(store.sensors[0].name, "AA:BB");
    let id = store.sensors[0].id;

    ingest(&mut store, "AA:BB", value(460.0, 21.7, 41.0, 310.0, t2)).unwrap();
    assert_eq!(store.sensors.len(), 1);
    assert_eq!(store.readings.len(), 2);
    assert_eq!(store.readings[1].sensor_id, id);

    let snap = snapshot(&store);
    assert_eq!(snap.len(), 1);
    assert_eq!(snap[0].sensor.id, id);
    assert_eq!(snap[0].value.reading_time, t2);
    assert_eq!(f32::from_bits(snap[0].value.co2), 460.0);
}

#[test]
fn snapshot_reports_reading_at_latest_of_three_times() {
    let mut store = Store::new();
    let t1: i64 = 1000;
    let t2: i64 = 2000;
    let t3: i64 = 3000;
    ingest(&mut store, "AA:BB", value(1.0, 0.0, 0.0, 0.0, t2)).unwrap();
    ingest(&mut store, "AA:BB", value(2.0, 0.0, 0.0, 0.0, t1)).unwrap();
    ingest(&mut store, "AA:BB", value(3.0, 0.0, 0.0, 0.0, t3)).unwrap();
    let snap = snapshot(&store);
    assert_eq!(snap.len(), 1);
    assert_eq!(snap[0].value.reading_time, t3);
    assert_eq!(f32::from_bits(snap[0].value.co2), 3.0);
}

#[test]
fn history_with_explicit_range_is_inclusive_and_sorted() {
    let mut store = Store::new();
    for t in [4000i64, 1000, 3000, 2000] {
        ingest(&mut store, "AA:BB", value(0.0, 0.0, 0.0, 0.0, t)).unwrap();
    }
    let id = store.sensors[0].id;
    let got = history(&store, id, Some((1000, 3000)));
    let times: Vec<i64> = got.iter().map(|r| r.reading_time).collect();
    assert_eq!(times, vec![1000, 2000, 3000]);
}

#[test]
fn history_default_window_is_last_day_ending_at_latest_reading() {
    let mut store = Store::new();
    let latest: i64 = 1714564800000;
    let inside_low: i64 = latest - DAY_MS;
    let just_outside: i64 = latest - DAY_MS - 1;
    for t in [latest, inside_low, just_outside, latest - 5000] {
        ingest(&mut store, "AA:BB", value(0.0, 0.0, 0.0, 0.0, t)).unwrap();
    }
    let id = store.sensors[0].id;
    let got = history(&store, id, None);
    let times: Vec<i64> = got.iter().map(|r| r.reading_time).collect();
    assert_eq!(times, vec![inside_low, latest - 5000, latest]);
}

#[test]
fn history_for_unknown_sensor_is_empty() {
    let store = Store::new();
    assert!(history(&store, 99, None).is_empty());
    assert!(history(&store, 99, Some((0, 1000))).is_empty());
}

#[test]
fn detail_of_unknown_sensor_is_not_found() {
    let store = Store::new();
    match detail(&store, 99, None) {
        Err(QueryError::NotFound) => {},
        other => panic!("expected a not-found outcome, got {:?}", other.is_ok()),
    }
}

#[test]
fn detail_without_date_shows_last_day_and_no_next() {
    let mut store = Store::new();
    let latest: i64 = 1714564800000;
    for t in [latest, latest - DAY_MS, latest - DAY_MS - 1] {
        ingest(&mut store, "AA:BB", value(0.0, 0.0, 0.0, 0.0, t)).unwrap();
    }
    let id = store.sensors[0].id;
    let v = detail(&store, id, None).unwrap();
    assert_eq!(v.sensor.id, id);
    assert_eq!(v.value.reading_time, latest);
    assert_eq!(v.from, latest - DAY_MS);
    assert_eq!(v.to, latest);
    let times: Vec<i64> = v.values.iter().map(|r| r.reading_time).collect();
    assert_eq!(times, vec![latest - DAY_MS, latest]);
    assert!(v.next.is_none());
}

#[test]
fn detail_with_historical_date_offers_both_neighbours() {
    let mut store = Store::new();
    let t: i64 = 1714564800000;
    ingest(&mut store, "AA:BB", value(0.0, 0.0, 0.0, 0.0, t)).unwrap();
    let id = store.sensors[0].id;
    let d = CivilDate { year: 2024, month: 5, day: 1 };
    let v = detail(&store, id, Some(d)).unwrap();
    assert!(v.from <= v.to);
    assert_eq!(v.prev, CivilDate { year: 2024, month: 4, day: 30 });
    // 2024-05-01 lies in the past of any sane clock, so a next day is offered.
    assert_eq!(v.next, Some(CivilDate { year: 2024, month: 5, day: 2 }));
    let times: Vec<i64> = v.values.iter().map(|r| r.reading_time).collect();
    for w in times.windows(2) {
        assert!(w[0] < w[1] || (w[0] == w[1]));
    }
}

#[test]
fn detail_with_date_far_from_all_readings_is_ok_and_empty() {
    let mut store = Store::new();
    // One reading in 2024; the viewed day lies years earlier, so no time
    // zone's window for it can reach the reading.
    ingest(&mut store, "AA:BB", value(0.0, 0.0, 0.0, 0.0, 1714564800000)).unwrap();
    let id = store.sensors[0].id;
    let d = CivilDate { year: 2019, month: 6, day: 15 };
    let v = detail(&store, id, Some(d)).unwrap();
    assert!(v.values.is_empty());
    assert_eq!(v.prev, CivilDate { year: 2019, month: 6, day: 14 });
    assert_eq!(v.next, Some(CivilDate { year: 2019, month: 6, day: 16 }));
}

#[test]
fn detail_of_sensor_without_readings_is_not_found() {
    let mut store = Store::new();
    let id = store.insert_sensor("AA:BB", 1000).unwrap();
    match detail(&store, id, None) {
        Err(QueryError::NotFound) => {},
        _ => panic!("expected a not-found outcome for an empty join"),
    }
}
