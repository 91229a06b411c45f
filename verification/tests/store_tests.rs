use sensorlog::{
    ingest, resolve, SensorValue, StorageError, Store,
};

fn value_at(t: i64) -> SensorValue {
    SensorValue { co2: 450u32, temperature: 21u32, humidity: 40u32, lumen: 300u32, reading_time: t }
}

#[test]
fn resolve_same_address_twice_returns_same_id_and_keeps_first_seen() {
    let mut store = Store::new();
    let t1: i64 = 1714564800000;
    let t2: i64 = 1714565100000;
    let id1 = resolve(&mut store, "AA:BB", t1).unwrap();
    let id2 = resolve(&mut store, "AA:BB", t2).unwrap();
    assert_eq!(id1, id2);
    assert_eq!(store.sensors.len(), 1);
    assert_eq!(store.sensors[0].first_seen, t1);
    assert_eq!(store.sensors[0].mac_address, "AA:BB");
    assert_eq!(store.sensors[0].name, "AA:BB");
}

#[test]
fn repeated_resolution_yields_exactly_one_row() {
    let mut store = Store::new();
    let t: i64 = 1714564800000;
    let first = resolve(&mut store, "11:22", t).unwrap();
    for k in 0..10i64 {
        let id = resolve(&mut store, "11:22", t + k).unwrap();
        assert_eq!(id, first);
    }
    assert_eq!(store.sensors.len(), 1);
}

#[test]
fn find_sensor_id_absent_and_present() {
    let mut store = Store::new();
    assert_eq!(store.find_sensor_id("AA:BB"), None);
    let id = store.insert_sensor("AA:BB", 1000).unwrap();
    assert_eq!(store.find_sensor_id("AA:BB"), Some(id));
    assert_eq!(store.find_sensor_id("CC:DD"), None);
}

#[test]
fn duplicate_insert_sensor_is_a_unique_violation() {
    let mut store = Store::new();
    store.insert_sensor("AA:BB", 1000).unwrap();
    assert_eq!(
        store.insert_sensor("AA:BB", 2000),
        Err(StorageError::UniqueViolation)
    );
    assert_eq!(store.sensors.len(), 1);
    assert_eq!(store.sensors[0].first_seen, 1000);
}

#[test]
fn append_for_unknown_sensor_is_a_foreign_key_violation() {
    let mut store = Store::new();
    assert_eq!(
        store.insert_sensor_value(1, value_at(1000)),
        Err(StorageError::ForeignKeyViolation)
    );
    let id = store.insert_sensor("AA:BB", 1000).unwrap();
    assert_eq!(
        store.insert_sensor_value(id + 1, value_at(1000)),
        Err(StorageError::ForeignKeyViolation)
    );
    assert!(store.insert_sensor_value(id, value_at(1000)).is_ok());
}

#[test]
fn range_query_sorts_by_reading_time_regardless_of_insertion_order() {
    let mut a = Store::new();
    let id_a = a.insert_sensor("AA:BB", 0).unwrap();
    for t in [5000i64, 1000, 4000, 2000, 3000] {
        a.insert_sensor_value(id_a, value_at(t)).unwrap();
    }
    let got = a.get_sensor_values(id_a, 0, 10000);
    let times: Vec<i64> = got.iter().map(|r| r.reading_time).collect();
    assert_eq!(times, vec![1000, 2000, 3000, 4000, 5000]);
}

#[test]
fn range_query_bounds_are_inclusive() {
    let mut store = Store::new();
    let id = store.insert_sensor("AA:BB", 0).unwrap();
    for t in [1000i64, 2000, 3000, 4000] {
        store.insert_sensor_value(id, value_at(t)).unwrap();
    }
    let got = store.get_sensor_values(id, 2000, 3000);
    let times: Vec<i64> = got.iter().map(|r| r.reading_time).collect();
    assert_eq!(times, vec![2000, 3000]);
}

#[test]
fn range_query_for_unknown_sensor_is_empty_not_an_error() {
    let store = Store::new();
    let got = store.get_sensor_values(17, 0, 10000);
    assert!(got.is_empty());
}

#[test]
fn latest_is_max_time_with_ties_broken_by_highest_id() {
    let mut store = Store::new();
    let id = store.insert_sensor("AA:BB", 0).unwrap();
    store.insert_sensor_value(id, value_at(1000)).unwrap();
    store.insert_sensor_value(id, value_at(3000)).unwrap();
    store.insert_sensor_value(id, value_at(2000)).unwrap();
    let latest = store.latest_for(id).unwrap();
    assert_eq!(latest.reading_time, 3000);
    let tie = SensorValue { co2: 1, temperature: 2, humidity: 3, lumen: 4, reading_time: 3000 };
    let rid = store.insert_sensor_value(id, tie).unwrap();
    let latest2 = store.latest_for(id).unwrap();
    assert_eq!(latest2.id, rid);
    assert_eq!(latest2.co2, 1);
}

#[test]
fn snapshot_orders_sensors_by_name_ascending() {
    let mut store = Store::new();
    for mac in ["bb:01", "aa:02", "cc:03"] {
        let mut v = value_at(1000);
        v.co2 = 7;
        ingest(&mut store, mac, v).unwrap();
    }
    let snap = store.get_sensors_with_last_value();
    let names: Vec<&str> = snap.iter().map(|e| e.sensor.name.as_str()).collect();
    assert_eq!(names, vec!["aa:02", "bb:01", "cc:03"]);
}

#[test]
fn snapshot_skips_sensors_without_readings() {
    let mut store = Store::new();
    store.insert_sensor("AA:BB", 1000).unwrap();
    let with = store.insert_sensor("CC:DD", 1000).unwrap();
    store.insert_sensor_value(with, value_at(2000)).unwrap();
    let snap = store.get_sensors_with_last_value();
    assert_eq!(snap.len(), 1);
    assert_eq!(snap[0].sensor.id, with);
}

#[test]
fn ingest_creates_sensor_lazily_and_appends() {
    let mut store = Store::new();
    let rid = ingest(&mut store, "AA:BB", value_at(5000)).unwrap();
    assert_eq!(rid, 1);
    assert_eq!(store.sensors.len(), 1);
    assert_eq!(store.readings.len(), 1);
    assert_eq!(store.readings[0].sensor_id, store.sensors[0].id);
    assert_eq!(store.readings[0].reading_time, 5000);
    let rid2 = ingest(&mut store, "AA:BB", value_at(6000)).unwrap();
    assert_eq!(rid2, 2);
    assert_eq!(store.sensors.len(), 1);
    assert_eq!(store.readings.len(), 2);
}
