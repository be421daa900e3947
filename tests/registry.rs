use sensor_bridge::api::{
    create_render_data_for_client, handle_client_registration, handle_sensor_data_request,
    ApiError,
};
use sensor_bridge::config::{
    create_network_device_config, default_http_port, get_client, get_http_port, read,
    register_client, remove, remove_client, set_client_active, set_http_port,
    update_client_display_config, update_client_name, AppConfig, NetworkDeviceConfig,
    RegisteredClient,
};
use sensor_bridge::mac::{default_client_name, normalize_mac};
use sensor_bridge::model::DisplayConfig;
use sensor_bridge::sensor::{SensorType, SensorValue};

#[test]
fn registration_and_activation_scenario() {
    let mut config = AppConfig::new();
    let client = handle_client_registration(
        &mut config,
        Some("AA-BB-CC-11-22-33"),
        Some("10.0.0.5"),
        Some(320),
        Some(240),
        1_700_000_000,
    )
    .unwrap();
    assert_eq!(client.mac_address, "aa:bb:cc:11:22:33");
    assert_eq!(client.name, "Display aa:bb:cc");
    assert!(!client.active);
    assert_eq!(config.clients().len(), 1);

    let refused = handle_sensor_data_request(&mut config, Some("aa:bb:cc:11:22:33"), 1_700_000_001);
    match refused {
        Err(e) => {
            assert!(matches!(e, ApiError::NotActive));
            assert_eq!(e.status_code(), 403);
        }
        Ok(_) => panic!("an inactive client must be refused"),
    }

    set_client_active(&mut config, "aa:bb:cc:11:22:33", true).unwrap();
    let layout =
        handle_sensor_data_request(&mut config, Some("aa:bb:cc:11:22:33"), 1_700_000_002).unwrap();
    assert_eq!(layout.resolution_width, 320);
    assert_eq!(layout.resolution_height, 240);
}

#[test]
fn sensor_data_request_errors() {
    let mut config = AppConfig::new();
    match handle_sensor_data_request(&mut config, None, 5) {
        Err(ApiError::BadRequest(m)) => assert_eq!(m, "mac_address parameter required"),
        _ => panic!("missing address must be a bad request"),
    }
    let unknown = handle_sensor_data_request(&mut config, Some("01:02:03:04:05:06"), 5);
    match unknown {
        Err(e) => {
            assert!(matches!(e, ApiError::NotRegistered));
            assert_eq!(e.status_code(), 404);
            assert_eq!(e.message(), "Client not registered");
        }
        Ok(_) => panic!("unknown client must be refused"),
    }
    assert_eq!(ApiError::InternalError("x".to_string()).status_code(), 500);
    assert_eq!(ApiError::BadRequest("field".to_string()).status_code(), 400);
}

#[test]
fn sensor_data_request_refreshes_liveness_even_when_inactive() {
    let mut config = AppConfig::new();
    register_client(&mut config, "aa:bb:cc:dd:ee:ff", "10.0.0.1".to_string(), 10, 10, 100);
    let _ = handle_sensor_data_request(&mut config, Some("AA:BB:CC:DD:EE:FF"), 250);
    assert_eq!(config.clients()[0].last_seen, 250);
    // the clock never goes back
    let _ = handle_sensor_data_request(&mut config, Some("aa:bb:cc:dd:ee:ff"), 200);
    assert_eq!(config.clients()[0].last_seen, 250);
}

#[test]
fn registration_needs_address_and_ip() {
    let mut config = AppConfig::new();
    match handle_client_registration(&mut config, None, Some("1.2.3.4"), None, None, 0) {
        Err(ApiError::BadRequest(m)) => assert_eq!(m, "mac_address is required"),
        _ => panic!(),
    }
    match handle_client_registration(&mut config, Some("aa:bb"), None, None, None, 0) {
        Err(ApiError::BadRequest(m)) => assert_eq!(m, "ip_address is required"),
        _ => panic!(),
    }
    assert_eq!(config.clients().len(), 0);
    let c = handle_client_registration(&mut config, Some("aa:bb:cc:dd:ee:01"), Some("1.2.3.4"), None, None, 0)
        .unwrap();
    assert_eq!(c.resolution_width, 1920);
    assert_eq!(c.resolution_height, 1080);
    assert_eq!(c.display_config.resolution_width, 1920);
}

#[test]
fn registration_with_different_casings_gives_one_entry() {
    let mut config = AppConfig::new();
    register_client(&mut config, "AA:BB:CC:DD:EE:FF", "10.0.0.1".to_string(), 320, 240, 10);
    register_client(&mut config, "aa-bb-cc-dd-ee-ff", "10.0.0.2".to_string(), 480, 320, 20);
    register_client(&mut config, "aabb.ccdd.eeff", "10.0.0.3".to_string(), 480, 320, 30);
    assert_eq!(config.clients().len(), 1);
    let c = &config.clients()[0];
    assert_eq!(c.mac_address, "aa:bb:cc:dd:ee:ff");
    assert_eq!(c.ip_address, "10.0.0.3");
    assert_eq!(c.resolution_width, 480);
    assert_eq!(c.registered_at, 10);
    assert_eq!(c.last_seen, 30);
}

#[test]
fn registration_never_activates() {
    let mut config = AppConfig::new();
    let c = register_client(&mut config, "11:22:33:44:55:66", "10.0.0.1".to_string(), 1, 1, 1);
    assert!(!c.active);
    set_client_active(&mut config, "11:22:33:44:55:66", false).unwrap();
    let c = register_client(&mut config, "11:22:33:44:55:66", "10.0.0.1".to_string(), 1, 1, 2);
    assert!(!c.active);
    set_client_active(&mut config, "11:22:33:44:55:66", true).unwrap();
    let c = register_client(&mut config, "11:22:33:44:55:66", "10.0.0.9".to_string(), 1, 1, 3);
    assert!(c.active);
    update_client_name(&mut config, "11:22:33:44:55:66", "Desk".to_string()).unwrap();
    let kept = get_client(&config, "11:22:33:44:55:66").unwrap();
    assert!(kept.active);
    assert_eq!(kept.name, "Desk");
}

#[test]
fn update_and_remove_unknown_clients() {
    let mut config = AppConfig::new();
    assert_eq!(
        update_client_name(&mut config, "de:ad:be:ef:00:01", "x".to_string()),
        Err("Client with MAC address de:ad:be:ef:00:01 not found".to_string())
    );
    assert!(set_client_active(&mut config, "de:ad:be:ef:00:01", true).is_err());
    assert!(update_client_display_config(&mut config, "de:ad:be:ef:00:01", DisplayConfig::empty(1, 1)).is_err());
    assert_eq!(
        remove_client(&mut config, "de:ad:be:ef:00:01"),
        Err("Client with MAC address de:ad:be:ef:00:01 not found".to_string())
    );
    assert!(get_client(&config, "de:ad:be:ef:00:01").is_none());
}

#[test]
fn display_config_update_and_removal() {
    let mut config = AppConfig::new();
    register_client(&mut config, "01:02:03:04:05:06", "10.0.0.1".to_string(), 320, 240, 1);
    register_client(&mut config, "01:02:03:04:05:07", "10.0.0.2".to_string(), 320, 240, 1);
    update_client_display_config(&mut config, "01:02:03:04:05:06", DisplayConfig::empty(800, 600)).unwrap();
    let c = get_client(&config, "01-02-03-04-05-06").unwrap();
    assert_eq!(c.display_config.resolution_width, 800);
    let data = create_render_data_for_client(&c, vec![]);
    assert_eq!(data.display_config.resolution_height, 600);
    assert_eq!(data.sensor_values.len(), 0);
    remove_client(&mut config, "01:02:03:04:05:06").unwrap();
    assert_eq!(config.clients().len(), 1);
    assert!(get_client(&config, "01:02:03:04:05:06").is_none());
    assert!(get_client(&config, "01:02:03:04:05:07").is_some());
}

#[test]
fn http_port_validation() {
    let mut config = AppConfig::new();
    assert_eq!(get_http_port(&config), 25555);
    assert_eq!(default_http_port(), 25555);
    assert_eq!(set_http_port(&mut config, 80), Err("Port must be between 1024 and 65535".to_string()));
    assert_eq!(set_http_port(&mut config, 1023).is_err(), true);
    assert_eq!(set_http_port(&mut config, 0).is_err(), true);
    assert_eq!(get_http_port(&config), 25555);
    assert!(set_http_port(&mut config, 1024).is_ok());
    assert_eq!(get_http_port(&config), 1024);
    assert!(set_http_port(&mut config, 65535).is_ok());
    assert_eq!(get_http_port(&config), 65535);
}

#[test]
fn loading_stored_clients_normalizes_keys() {
    let a = RegisteredClient::new("AA:BB:CC:00:00:01".to_string(), "one".to_string(), "1.1.1.1".to_string(), 1, 2, 3);
    let b = RegisteredClient::new("aa-bb-cc-00-00-01".to_string(), "two".to_string(), "2.2.2.2".to_string(), 1, 2, 4);
    let c = RegisteredClient::new("aa:bb:cc:00:00:02".to_string(), "three".to_string(), "3.3.3.3".to_string(), 1, 2, 5);
    let config = AppConfig::from_clients(vec![a, b, c], 4000);
    assert_eq!(config.clients().len(), 2);
    assert_eq!(get_http_port(&config), 4000);
    let first = get_client(&config, "aa:bb:cc:00:00:01").unwrap();
    assert_eq!(first.name, "two");
    assert_eq!(first.mac_address, "aa:bb:cc:00:00:01");
}

#[test]
fn client_liveness() {
    let mut c = RegisteredClient::new("a".to_string(), "n".to_string(), "ip".to_string(), 1, 1, 100);
    assert!(c.is_recently_active(30, 120));
    assert!(!c.is_recently_active(30, 130));
    assert!(c.is_recently_active(30, 50));
    c.update_last_seen(90);
    assert_eq!(c.last_seen, 100);
    c.update_last_seen(140);
    assert_eq!(c.last_seen, 140);
}

#[test]
fn mac_normal_form() {
    assert_eq!(normalize_mac("AA-BB-CC-11-22-33"), "aa:bb:cc:11:22:33");
    assert_eq!(normalize_mac("aabb.cc11.2233"), "aa:bb:cc:11:22:33");
    let once = normalize_mac("Ab:Cd:eF:01:23:45");
    assert_eq!(normalize_mac(&once), once);
    assert_eq!(normalize_mac(""), "");
    assert_eq!(normalize_mac("abc"), "ab:c");
    assert_eq!(default_client_name("aa:bb:cc:11:22:33"), "Display aa:bb:cc");
    assert_eq!(default_client_name("ab:c"), "Display ab:c");
}

#[test]
fn legacy_device_configuration() {
    let a = create_network_device_config();
    let b: NetworkDeviceConfig = NetworkDeviceConfig::default();
    assert_eq!(a.id.len(), 36);
    assert_eq!(a.id.matches('-').count(), 4);
    assert_ne!(a.id, b.id);
    assert_eq!(a.name, "A new device");
    assert!(!a.active);
    sensor_bridge::config::write(&a);
    remove(&a.id);
    assert!(read(&a.id).is_none());
}

#[test]
fn render_data_carries_snapshot() {
    let c = RegisteredClient::new("a".to_string(), "n".to_string(), "ip".to_string(), 7, 8, 1);
    let v = SensorValue {
        id: "x".to_string(),
        value: "1".to_string(),
        unit: "".to_string(),
        label: "X".to_string(),
        sensor_type: SensorType::Number,
    };
    let d = create_render_data_for_client(&c, vec![v]);
    assert_eq!(d.sensor_values[0].id, "x");
    assert_eq!(d.display_config.resolution_width, 7);
}

#[test]
fn reloading_stored_clients_gives_the_registry_back() {
    let mut config = AppConfig::new();
    register_client(&mut config, "aa:00:00:00:00:01", "10.0.0.1".to_string(), 320, 240, 10);
    register_client(&mut config, "aa:00:00:00:00:02", "10.0.0.2".to_string(), 480, 320, 11);
    set_client_active(&mut config, "aa:00:00:00:00:02", true).unwrap();
    set_http_port(&mut config, 8080).unwrap();
    let reloaded = AppConfig::from_clients(config.clients().clone(), get_http_port(&config));
    assert_eq!(reloaded.clients().len(), 2);
    for (a, b) in config.clients().iter().zip(reloaded.clients().iter()) {
        assert_eq!(a.mac_address, b.mac_address);
        assert_eq!(a.name, b.name);
        assert_eq!(a.ip_address, b.ip_address);
        assert_eq!(a.active, b.active);
        assert_eq!(a.last_seen, b.last_seen);
        assert_eq!(a.display_config.resolution_width, b.display_config.resolution_width);
    }
    assert_eq!(get_http_port(&reloaded), 8080);
}
