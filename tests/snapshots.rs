use sensor_bridge::net::{cleanup_old_clients, ClientInfo};
use sensor_bridge::model::DisplayConfig;
use sensor_bridge::sensor::{
    build_snapshot, copy_snapshot, read_all_sensor_values, record_snapshot, CpuSensor,
    SensorProvider, SensorType, SensorValue, SystemStatSensor, SENSOR_VALUE_HISTORY_SIZE,
};

fn reading(id: &str, label: &str, value: &str) -> SensorValue {
    SensorValue {
        id: id.to_string(),
        value: value.to_string(),
        unit: "%".to_string(),
        label: label.to_string(),
        sensor_type: SensorType::Number,
    }
}

#[test]
fn history_truncation_scenario() {
    let mut history: Vec<Vec<SensorValue>> = Vec::new();
    for tick in 1..=4 {
        let snapshot = build_snapshot(&vec![], vec![reading("cpu_load_total", "Total CPU load", &format!("{}.00", tick))]);
        record_snapshot(&mut history, snapshot, 3);
    }
    assert_eq!(history.len(), 3);
    assert_eq!(history[0][0].value, "4.00");
    assert_eq!(history[1][0].value, "3.00");
    assert_eq!(history[2][0].value, "2.00");
}

#[test]
fn history_fills_to_capacity_then_drops_oldest() {
    let mut history: Vec<Vec<SensorValue>> = Vec::new();
    for tick in 0..5 {
        record_snapshot(&mut history, vec![reading("a", "A", &tick.to_string())], 5);
        assert_eq!(history.len(), tick + 1);
    }
    let oldest = history[4][0].value.clone();
    assert_eq!(oldest, "0");
    record_snapshot(&mut history, vec![reading("a", "A", "5")], 5);
    assert_eq!(history.len(), 5);
    assert_eq!(history[0][0].value, "5");
    assert!(history.iter().all(|s| s[0].value != "0"));
}

#[test]
fn snapshot_is_sorted_by_label_and_keeps_ids() {
    let statics = vec![reading("bios_vendor", "BIOS Vendor", "ACME"), reading("zz", "Zeta", "1")];
    let dynamics = vec![
        reading("cpu_load_total", "Total CPU load", "3.00"),
        reading("memory_used", "Used memory", "1.00"),
        reading("cpu_load_0", "CPU 0 load", "2.00"),
    ];
    let snapshot = build_snapshot(&statics, dynamics);
    let labels: Vec<&str> = snapshot.iter().map(|s| s.label.as_str()).collect();
    assert_eq!(labels, vec!["BIOS Vendor", "CPU 0 load", "Total CPU load", "Used memory", "Zeta"]);
    let mut ids: Vec<&str> = snapshot.iter().map(|s| s.id.as_str()).collect();
    ids.sort();
    ids.dedup();
    assert_eq!(ids.len(), 5);
}

#[test]
fn snapshot_order_is_stable_for_equal_labels() {
    let snapshot = build_snapshot(&vec![reading("s", "Same", "static")], vec![reading("d", "Same", "dynamic")]);
    assert_eq!(snapshot[0].id, "s");
    assert_eq!(snapshot[1].id, "d");
}

#[test]
fn tick_records_snapshot_in_history() {
    let mut history = Vec::new();
    let statics = vec![reading("b", "B", "1")];
    let snapshot = read_all_sensor_values(&mut history, &statics, vec![reading("a", "A", "2")]);
    assert_eq!(snapshot.len(), 2);
    assert_eq!(snapshot[0].id, "a");
    assert_eq!(history.len(), 1);
    assert_eq!(history[0].len(), 2);
    assert_eq!(SENSOR_VALUE_HISTORY_SIZE, 1000);
    assert_eq!(copy_snapshot(&snapshot)[1].id, "b");
}

#[test]
fn provider_names() {
    assert_eq!(SystemStatSensor {}.get_name(), "SystemStat");
    assert_eq!(CpuSensor {}.get_name(), "CPU");
}

#[test]
fn push_clients_time_out_after_thirty_seconds() {
    let client = |id: &str, seen: u64| ClientInfo {
        id: id.to_string(),
        name: id.to_string(),
        display_config: DisplayConfig::empty(1, 1),
        last_seen: seen,
    };
    let mut clients = vec![client("old", 0), client("edge", 10_000), client("new", 39_000)];
    cleanup_old_clients(&mut clients, 40_000);
    let ids: Vec<&str> = clients.iter().map(|c| c.id.as_str()).collect();
    assert_eq!(ids, vec!["edge", "new"]);
}
