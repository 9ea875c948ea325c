use lcore_node::database::Database;
use lcore_node::encryption::{
    derive_stage1_nonce, derive_stage2_nonce, Stage1Encryption, Stage2Encryption,
};
use lcore_node::error::LCoreError;
use sha2::{Digest, Sha256};

#[test]
fn test_database_initialization() {
    let db = Database::new().expect("Failed to create database");

    // A new store is usable and holds nothing.
    assert_eq!(db.sensor_data_len(), 0);
    assert_eq!(db.current_counter("did:example:123456789"), 0);
    assert_eq!(db.get_device_public_key("did:example:123456789"), Ok(None));
}

#[test]
fn test_device_insertion() {
    let mut db = Database::new().expect("Failed to create database");

    let device_id = "did:example:123456789";
    let did_document = "{\"id\":\"did:example:123456789\",\"publicKey\":[]}";
    let public_key = "{\"kty\":\"OKP\",\"crv\":\"Ed25519\"}";

    let result = db.insert_device(device_id, did_document, public_key);
    assert!(result.is_ok());
    assert_eq!(db.get_device_public_key(device_id), Ok(Some(public_key.to_string())));
    assert_eq!(db.current_counter(device_id), 0);
}

#[test]
fn test_sensor_data_insertion() {
    let mut db = Database::new().expect("Failed to create database");

    let device_id = "did:example:123456789";
    db.insert_device(device_id, "{}", "{}").expect("Failed to insert device");

    let test_data = b"temperature:23.5,humidity:45.2";
    let stage1_key =
        Stage1Encryption::derive_key_from_did(device_id).expect("Failed to derive key");
    let stage2_key = Stage2Encryption::derive_key_from_context("iot-sensor-data-v1")
        .expect("Failed to derive key");

    let stage1_hash = hex::encode(Sha256::digest(&stage1_key));
    let stage2_hash = hex::encode(Sha256::digest(&stage2_key));
    let timestamp = "2024-01-01T00:00:00Z";

    let result =
        db.insert_sensor_data(device_id, test_data, &stage1_hash, &stage2_hash, 1, timestamp);
    assert!(result.is_ok());
    assert_eq!(db.sensor_data_len(), 1);
}

#[test]
fn test_sensor_data_retrieval() {
    let mut db = Database::new().expect("Failed to create database");

    let device_id = "did:example:123456789";
    db.insert_device(device_id, "{}", "{}").expect("Failed to insert device");

    let test_data = b"temperature:23.5,humidity:45.2";
    let timestamp = "2024-01-01T00:00:00Z";

    db.insert_sensor_data(device_id, test_data, "hash1", "hash2", 1, timestamp)
        .expect("Failed to insert sensor data");

    let result = db.get_latest_sensor_data(device_id).expect("Failed to query data");
    assert!(result.is_some());

    let sensor_data = result.unwrap();
    assert_eq!(sensor_data.device_id, device_id);
    assert_eq!(sensor_data.encrypted_payload, test_data);
    assert_eq!(sensor_data.timestamp, timestamp);
    assert_eq!(sensor_data.id, 1);
    assert_eq!(sensor_data.counter, 1);
    assert_eq!(sensor_data.stage1_key_hash, "hash1");
    assert_eq!(sensor_data.stage2_key_hash, "hash2");
}

#[test]
fn registration_is_idempotent() {
    let mut db = Database::new().expect("Failed to create database");
    db.insert_device("d", "doc", "key").expect("Failed to insert device");
    assert_eq!(db.next_message_counter("d"), Ok(1));
    // A second registration changes neither the key nor the counter.
    assert_eq!(db.insert_device("d", "other doc", "other key"), Ok(()));
    assert_eq!(db.get_device_public_key("d"), Ok(Some("key".to_string())));
    assert_eq!(db.current_counter("d"), 1);
    assert_eq!(db.next_message_counter("d"), Ok(2));
}

#[test]
fn counters_run_from_one_without_gap() {
    let mut db = Database::new().expect("Failed to create database");
    db.insert_device("a", "{}", "{}").expect("Failed to insert device");
    for expected in 1..=100u64 {
        assert_eq!(db.next_message_counter("a"), Ok(expected));
        assert_eq!(db.current_counter("a"), expected);
    }
}

#[test]
fn counter_row_is_created_on_first_allocation() {
    let mut db = Database::new().expect("Failed to create database");
    // No registration: the first allocation creates the counter at 1.
    assert_eq!(db.next_message_counter("unregistered"), Ok(1));
    assert_eq!(db.next_message_counter("unregistered"), Ok(2));
    assert_eq!(db.get_device_public_key("unregistered"), Ok(None));
}

#[test]
fn counters_of_different_devices_are_independent() {
    let mut db = Database::new().expect("Failed to create database");
    let mut seen = Vec::new();
    for round in 1..=10u64 {
        for device in ["a", "b", "c"] {
            let value = db.next_message_counter(device).expect("allocation works");
            assert_eq!(value, round);
            seen.push((device, value));
        }
    }
    // No pair was handed out twice.
    for i in 0..seen.len() {
        for j in 0..i {
            assert_ne!(seen[i], seen[j]);
        }
    }
    assert_eq!(db.current_counter("a"), 10);
    assert_eq!(db.current_counter("d"), 0);
}

#[test]
fn unknown_device_has_no_key_and_no_record() {
    let mut db = Database::new().expect("Failed to create database");
    db.insert_device("a", "{}", "key-a").expect("Failed to insert device");
    db.insert_sensor_data("a", b"x", "h1", "h2", 1, "2024-01-01T00:00:00Z")
        .expect("Failed to insert sensor data");
    assert_eq!(db.get_device_public_key("b"), Ok(None));
    assert!(db.get_latest_sensor_data("b").expect("Failed to query data").is_none());
    assert!(db.get_latest_sensor_data("").expect("Failed to query data").is_none());
}

#[test]
fn latest_record_has_the_greatest_timestamp() {
    let mut db = Database::new().expect("Failed to create database");
    db.insert_sensor_data("a", b"second", "h1", "h2", 1, "2024-01-02T00:00:00Z")
        .expect("Failed to insert sensor data");
    db.insert_sensor_data("a", b"third", "h1", "h2", 2, "2024-01-03T00:00:00Z")
        .expect("Failed to insert sensor data");
    db.insert_sensor_data("a", b"first", "h1", "h2", 3, "2024-01-01T00:00:00Z")
        .expect("Failed to insert sensor data");
    db.insert_sensor_data("b", b"other", "h1", "h2", 1, "2025-01-01T00:00:00Z")
        .expect("Failed to insert sensor data");
    let row = db.get_latest_sensor_data("a").expect("Failed to query data").expect("No data found");
    assert_eq!(row.encrypted_payload, b"third");
    assert_eq!(row.id, 2);
    assert_eq!(row.counter, 2);
    let row = db.get_latest_sensor_data("b").expect("Failed to query data").expect("No data found");
    assert_eq!(row.encrypted_payload, b"other");
    assert_eq!(row.id, 4);
}

#[test]
fn equal_timestamps_go_by_insertion_order() {
    let mut db = Database::new().expect("Failed to create database");
    db.insert_sensor_data("a", b"early", "h1", "h2", 1, "2024-01-01T00:00:00Z")
        .expect("Failed to insert sensor data");
    db.insert_sensor_data("a", b"one", "h1", "h2", 2, "2024-01-02T00:00:00Z")
        .expect("Failed to insert sensor data");
    db.insert_sensor_data("a", b"two", "h1", "h2", 3, "2024-01-02T00:00:00Z")
        .expect("Failed to insert sensor data");
    let row = db.get_latest_sensor_data("a").expect("Failed to query data").expect("No data found");
    // Of the two written at the latest time, the one written last.
    assert_eq!(row.encrypted_payload, b"two");
    assert_eq!(row.id, 3);
    // An earlier timestamp written afterwards changes nothing.
    db.insert_sensor_data("a", b"late but old", "h1", "h2", 4, "2024-01-01T12:00:00Z")
        .expect("Failed to insert sensor data");
    let row = db.get_latest_sensor_data("a").expect("Failed to query data").expect("No data found");
    assert_eq!(row.id, 3);
    // A third record at the same time takes over again.
    db.insert_sensor_data("a", b"three", "h1", "h2", 5, "2024-01-02T00:00:00Z")
        .expect("Failed to insert sensor data");
    let row = db.get_latest_sensor_data("a").expect("Failed to query data").expect("No data found");
    assert_eq!(row.encrypted_payload, b"three");
    assert_eq!(row.id, 5);
}

#[test]
fn records_are_numbered_from_one() {
    let mut db = Database::new().expect("Failed to create database");
    for n in 1..=5i32 {
        let stamp = format!("2024-01-0{}T00:00:00Z", n);
        assert_eq!(db.insert_sensor_data("a", b"x", "h1", "h2", n as u64, &stamp), Ok(()));
        assert_eq!(db.sensor_data_len(), n as usize);
        let row =
            db.get_latest_sensor_data("a").expect("Failed to query data").expect("No data found");
        assert_eq!(row.id, n);
        assert_eq!(row.timestamp, stamp);
    }
}

#[test]
fn allocation_result_type_carries_no_error_on_fresh_store() {
    let mut db = Database::new().expect("Failed to create database");
    let result: Result<u64, LCoreError> = db.next_message_counter("a");
    assert_eq!(result, Ok(1));
}

#[test]
fn test_analytics_insertion() {
    let mut db = Database::new().expect("Failed to create database");

    let device_id = "did:example:123456789";
    let metric_type = "temperature_avg";
    let value: f64 = 23.5;
    let time_window = "1h";

    let result = db.insert_analytics(device_id, metric_type, value.to_bits(), time_window);
    assert!(result.is_ok());
    let rows = db.get_analytics(device_id, metric_type).expect("Analytics retrieval failed");
    assert_eq!(rows.len(), 1);
    assert_eq!(rows[0].id, 1);
    assert_eq!(rows[0].device_id, device_id);
    assert_eq!(rows[0].metric_type, metric_type);
    assert_eq!(f64::from_bits(rows[0].value_bits), 23.5);
    assert_eq!(rows[0].time_window, time_window);
}

#[test]
fn analytics_come_newest_first() {
    let mut db = Database::new().expect("Failed to create database");
    let stamps = ["2024-01-02", "2024-01-01", "2024-01-03", "2024-01-02", "2024-01-03"];
    for (n, stamp) in stamps.iter().enumerate() {
        db.insert_analytics_at("a", "temperature", n as u64, "1h", stamp)
            .expect("Analytics insertion failed");
    }
    db.insert_analytics_at("a", "humidity", 100, "1h", "2024-01-09")
        .expect("Analytics insertion failed");
    db.insert_analytics_at("b", "temperature", 200, "1h", "2024-01-09")
        .expect("Analytics insertion failed");
    let rows = db.get_analytics("a", "temperature").expect("Analytics retrieval failed");
    let order: Vec<u64> = rows.iter().map(|row| row.value_bits).collect();
    // Newest first; equal times in insertion order.
    assert_eq!(order, vec![2, 4, 0, 3, 1]);
    let ids: Vec<i32> = rows.iter().map(|row| row.id).collect();
    assert_eq!(ids, vec![3, 5, 1, 4, 2]);
    let rows = db.get_analytics("a", "humidity").expect("Analytics retrieval failed");
    assert_eq!(rows.len(), 1);
    assert_eq!(rows[0].id, 6);
    assert!(db.get_analytics("c", "temperature").expect("Analytics retrieval failed").is_empty());
    assert!(db.get_analytics("a", "pressure").expect("Analytics retrieval failed").is_empty());
}

#[test]
fn test_end_to_end_iot_flow() {
    let mut db = Database::new().expect("Failed to create database");

    let device_did = "did:example:123456789";
    db.insert_device(device_did, "{}", "{}").expect("Device registration failed");
    let counter = db.next_message_counter(device_did).expect("Counter allocation failed");
    assert_eq!(counter, 1);

    let original_data = b"sensor_reading:temperature=23.5,humidity=45.2,pressure=1013.25";

    let key1 = Stage1Encryption::derive_key_from_did(device_did).expect("Key derivation failed");
    let stage1 = Stage1Encryption::new(key1);
    let nonce1 = derive_stage1_nonce(device_did, counter);
    let ciphertext1 =
        stage1.encrypt_with_nonce(original_data, &nonce1).expect("Stage 1 encryption failed");

    let key2 = Stage2Encryption::derive_key_from_context("iot-sensor-data-v1")
        .expect("Key derivation failed");
    let stage2 = Stage2Encryption::new(key2);
    let nonce2 = derive_stage2_nonce(device_did, counter);
    let ciphertext2 =
        stage2.encrypt_with_nonce(&ciphertext1, &nonce2).expect("Stage 2 encryption failed");
    assert_eq!(
        hex::encode(&ciphertext2),
        "9f0512b4b4e9ba27b546aa31686f2a6d41ec3e7ed1025e87951faee293d8069862eb26860a0fe879ee6673c6b7908eec6e5e1c3f8b0ac396432885af84a729f27b0fc753dd8124066d9ae20ed876829e2266b1bdbe66a63b53dbaa50a50a"
    );

    let key1_hash = hex::encode(Sha256::digest(&key1));
    let key2_hash = hex::encode(Sha256::digest(&key2));
    let timestamp = "2024-01-01T00:00:00Z";

    db.insert_sensor_data(device_did, &ciphertext2, &key1_hash, &key2_hash, counter, timestamp)
        .expect("Data storage failed");

    let sensor_row = db
        .get_latest_sensor_data(device_did)
        .expect("Data retrieval failed")
        .expect("No data found");

    let nonce2 = derive_stage2_nonce(device_did, sensor_row.counter);
    let nonce1 = derive_stage1_nonce(&sensor_row.device_id, sensor_row.counter);
    let decrypted1 = stage2
        .decrypt_with_nonce(&sensor_row.encrypted_payload, &nonce2)
        .expect("Stage 2 decryption failed");
    let decrypted_original =
        stage1.decrypt_with_nonce(&decrypted1, &nonce1).expect("Stage 1 decryption failed");

    assert_eq!(decrypted_original, original_data);

    db.insert_analytics(device_did, "temperature", 23.5f64.to_bits(), "1h")
        .expect("Analytics insertion failed");

    let analytics =
        db.get_analytics(device_did, "temperature").expect("Analytics retrieval failed");
    assert!(!analytics.is_empty());
    assert_eq!(f64::from_bits(analytics[0].value_bits), 23.5);
}

fn device(id: &str, key: &str) -> lcore_node::database::DeviceRow {
    lcore_node::database::DeviceRow {
        id: id.to_string(),
        did_document: "{}".to_string(),
        public_key: key.to_string(),
    }
}

fn counter(id: &str, value: u64) -> lcore_node::database::CounterRow {
    lcore_node::database::CounterRow { device_id: id.to_string(), counter: value }
}

fn record(id: i32, device: &str, stamp: &str) -> lcore_node::database::SensorDataRow {
    lcore_node::database::SensorDataRow {
        id,
        device_id: device.to_string(),
        encrypted_payload: vec![id as u8],
        stage1_key_hash: "h1".to_string(),
        stage2_key_hash: "h2".to_string(),
        counter: id as u64,
        timestamp: stamp.to_string(),
    }
}

fn analytic(id: i32, device: &str, stamp: &str) -> lcore_node::database::AnalyticsRow {
    lcore_node::database::AnalyticsRow {
        id,
        device_id: device.to_string(),
        metric_type: "temperature".to_string(),
        value_bits: 1.5f64.to_bits(),
        time_window: "1h".to_string(),
        calculated_at: stamp.to_string(),
    }
}

#[test]
fn store_reopens_on_its_own_tables() {
    let mut db = Database::new().expect("Failed to create database");
    db.insert_device("a", "{}", "key-a").expect("Failed to insert device");
    db.insert_device("b", "{}", "key-b").expect("Failed to insert device");
    assert_eq!(db.next_message_counter("a"), Ok(1));
    assert_eq!(db.next_message_counter("a"), Ok(2));
    assert_eq!(db.next_message_counter("c"), Ok(1));
    db.insert_sensor_data("a", b"x", "h1", "h2", 2, "2024-01-01T00:00:00Z")
        .expect("Failed to insert sensor data");
    db.insert_analytics_at("a", "temperature", 7, "1h", "2024-01-01")
        .expect("Analytics insertion failed");

    let mut reopened = Database::from_tables(
        db.device_rows().clone(),
        db.counter_rows().clone(),
        db.sensor_rows().clone(),
        db.analytics_rows().clone(),
    )
    .expect("tables are consistent");
    assert_eq!(reopened.get_device_public_key("a"), Ok(Some("key-a".to_string())));
    assert_eq!(reopened.get_device_public_key("b"), Ok(Some("key-b".to_string())));
    assert_eq!(reopened.get_device_public_key("c"), Ok(None));
    assert_eq!(reopened.current_counter("a"), 2);
    assert_eq!(reopened.current_counter("b"), 0);
    assert_eq!(reopened.current_counter("c"), 1);
    assert_eq!(reopened.sensor_data_len(), 1);
    assert_eq!(reopened.get_analytics("a", "temperature").expect("query works").len(), 1);
    // Counters go on where they stood: nothing is handed out again.
    assert_eq!(reopened.next_message_counter("a"), Ok(3));
    assert_eq!(reopened.next_message_counter("c"), Ok(2));
}

#[test]
fn store_opens_on_given_rows() {
    let db = Database::from_tables(
        vec![device("a", "key-a")],
        vec![counter("a", 41), counter("z", u64::MAX)],
        vec![record(1, "a", "t1"), record(2, "a", "t2")],
        vec![analytic(1, "a", "t1")],
    )
    .expect("tables are consistent");
    assert_eq!(db.device_rows().len(), 1);
    assert_eq!(db.counter_rows().len(), 2);
    assert_eq!(db.sensor_rows().len(), 2);
    assert_eq!(db.analytics_rows().len(), 1);
    assert_eq!(db.current_counter("a"), 41);
    let row = db.get_latest_sensor_data("a").expect("query works").expect("No data found");
    assert_eq!(row.id, 2);
}

#[test]
fn exhausted_counter_is_never_wrapped() {
    let mut db = Database::from_tables(
        vec![],
        vec![counter("z", u64::MAX - 1)],
        vec![],
        vec![],
    )
    .expect("tables are consistent");
    assert_eq!(db.next_message_counter("z"), Ok(u64::MAX));
    assert_eq!(
        db.next_message_counter("z"),
        Err(LCoreError::Database(lcore_node::error::StorageFault::CounterExhausted))
    );
    assert_eq!(db.current_counter("z"), u64::MAX);
    assert_eq!(
        db.next_message_counter("z"),
        Err(LCoreError::Database(lcore_node::error::StorageFault::CounterExhausted))
    );
}

#[test]
fn inconsistent_tables_are_refused() {
    let inconsistent = Err(LCoreError::Database(lcore_node::error::StorageFault::Inconsistent));
    let refused = |devices, counters, records, analytics| {
        Database::from_tables(devices, counters, records, analytics).map(|_| ())
    };
    assert_eq!(
        refused(vec![device("a", "k1"), device("a", "k2")], vec![], vec![], vec![]),
        inconsistent
    );
    assert_eq!(
        refused(vec![], vec![counter("a", 1), counter("b", 1), counter("a", 2)], vec![], vec![]),
        inconsistent
    );
    assert_eq!(refused(vec![], vec![], vec![record(2, "a", "t")], vec![]), inconsistent);
    assert_eq!(
        refused(vec![], vec![], vec![record(1, "a", "t"), record(3, "a", "t")], vec![]),
        inconsistent
    );
    assert_eq!(refused(vec![], vec![], vec![], vec![analytic(0, "a", "t")]), inconsistent);
    assert_eq!(refused(vec![], vec![], vec![], vec![]), Ok(()));
}

#[test]
fn changes_are_what_the_later_store_holds_more() {
    let mut db = Database::new().expect("Failed to create database");
    db.insert_device("a", "{}", "key-a").expect("Failed to insert device");
    assert_eq!(db.next_message_counter("a"), Ok(1));
    assert_eq!(db.next_message_counter("b"), Ok(1));
    db.insert_sensor_data("a", b"x", "h1", "h2", 1, "t1").expect("Failed to insert sensor data");
    db.insert_analytics_at("a", "temperature", 1, "1h", "t1").expect("Analytics insertion failed");
    let before = db.clone();

    // Nothing happened: nothing to write.
    let none = db.changes_since(&before);
    assert!(none.devices.is_empty());
    assert!(none.counters.is_empty());
    assert!(none.sensor_data.is_empty());
    assert!(none.analytics.is_empty());

    db.insert_device("a", "{}", "other key").expect("Failed to insert device");
    db.insert_device("c", "{}", "key-c").expect("Failed to insert device");
    assert_eq!(db.next_message_counter("a"), Ok(2));
    assert_eq!(db.next_message_counter("d"), Ok(1));
    db.insert_sensor_data("a", b"y", "h1", "h2", 2, "t2").expect("Failed to insert sensor data");
    db.insert_sensor_data("c", b"z", "h1", "h2", 1, "t3").expect("Failed to insert sensor data");
    db.insert_analytics_at("c", "temperature", 2, "1h", "t2").expect("Analytics insertion failed");

    let changes = db.changes_since(&before);
    let devices: Vec<&str> = changes.devices.iter().map(|row| row.id.as_str()).collect();
    assert_eq!(devices, vec!["c"]);
    assert_eq!(changes.devices[0].public_key, "key-c");
    let mut counters: Vec<(String, u64)> =
        changes.counters.iter().map(|row| (row.device_id.clone(), row.counter)).collect();
    counters.sort();
    // Changed: a (1 to 2); new: c (created at 0 by registration) and d; b is as it was.
    assert_eq!(
        counters,
        vec![("a".to_string(), 2), ("c".to_string(), 0), ("d".to_string(), 1)]
    );
    let records: Vec<i32> = changes.sensor_data.iter().map(|row| row.id).collect();
    assert_eq!(records, vec![2, 3]);
    assert_eq!(changes.sensor_data[0].encrypted_payload, b"y");
    let analytics: Vec<i32> = changes.analytics.iter().map(|row| row.id).collect();
    assert_eq!(analytics, vec![2]);

    // The earlier store and the changes give the later store back.
    let mut devices = before.device_rows().clone();
    devices.extend(changes.devices.iter().cloned());
    let mut counters = before.counter_rows().clone();
    for row in &changes.counters {
        match counters.iter_mut().find(|old| old.device_id == row.device_id) {
            Some(old) => old.counter = row.counter,
            None => counters.push(row.clone()),
        }
    }
    let mut records = before.sensor_rows().clone();
    records.extend(changes.sensor_data.iter().cloned());
    let mut analytics = before.analytics_rows().clone();
    analytics.extend(changes.analytics.iter().cloned());
    let rebuilt =
        Database::from_tables(devices, counters, records, analytics).expect("tables are consistent");
    for device in ["a", "b", "c", "d", "e"] {
        assert_eq!(rebuilt.current_counter(device), db.current_counter(device));
        assert_eq!(rebuilt.get_device_public_key(device), db.get_device_public_key(device));
    }
    assert_eq!(rebuilt.sensor_data_len(), db.sensor_data_len());
    assert_eq!(rebuilt.analytics_rows().len(), db.analytics_rows().len());

    // Against a store that holds more, nothing is new.
    let back = before.changes_since(&db);
    assert!(back.devices.is_empty());
    assert!(back.sensor_data.is_empty());
    assert!(back.analytics.is_empty());
}
