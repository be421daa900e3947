use sensor_bridge::aida64::{parse_events, parse_xml, read_sensors, XmlEvent};
use sensor_bridge::providers::{
    disk_rw_sensors, get_active_line, get_mangohud_log_dir, get_mangohud_log_dir_from_file,
    get_unit_by_header_name, gpu_card_sensor_value, is_gpu_card_name, lhm_label, mangohud_sensor,
    match_sensor_type, memory_sensors, network_ip_sensor, network_rate_sensors, parse_base_board, parse_bios, parse_memory_device,
    pretty_bytes, uptime_sensor, volts_string,
};
use sensor_bridge::sensor::SensorType;

fn float_pretty(v: u64) -> (String, String) {
    let units = ["B", "KB", "MB", "GB", "TB", "PB", "EB", "ZB", "YB"];
    let mut x = v as f64;
    let mut k = 0;
    while x > 1024f64 {
        x /= 1024f64;
        k += 1;
    }
    (format!("{:.2}", x), units[k].to_string())
}

#[test]
fn pretty_bytes_matches_float_formatting() {
    for v in [0u64, 1, 999, 1024, 1025, 1152, 1536, 4096 + 128, 534 * 1024 * 1024, 1_000_000_007, 5 * 1024 * 1024 * 1024 * 1024] {
        assert_eq!(pretty_bytes(v), float_pretty(v), "value {}", v);
    }
    assert_eq!(pretty_bytes(534 * 1024 * 1024), ("534.00".to_string(), "MB".to_string()));
}

#[test]
fn uptime_is_clock_text() {
    let s = uptime_sensor(3 * 3600 + 4 * 60 + 5);
    assert_eq!(s.value, "03:04:05");
    assert_eq!(s.id, "system_uptime");
    assert_eq!(uptime_sensor(123 * 3600).value, "123:00:00");
}

#[test]
fn network_and_disk_rates() {
    let r = network_rate_sensors("eth0", 1000, 0, 1256, 256 * 1024);
    assert_eq!(r[0].id, "network_rx_eth0");
    assert_eq!(r[0].label, "eth0 download rate");
    assert_eq!(r[0].value, "1024.00");
    assert_eq!(r[0].unit, "B/s");
    assert_eq!(r[1].id, "network_tx_eth0");
    assert_eq!(r[1].value, "1024.00");
    assert_eq!(r[1].unit, "KB/s");
    let d = disk_rw_sensors("sda", 0, 2, 10, 5, 512);
    assert_eq!(d[0].id, "disk_read_sda");
    assert_eq!(d[0].label, "Disk sda read");
    assert_eq!(d[0].value, "4.00");
    assert_eq!(d[0].unit, "KB/s");
    assert_eq!(d[1].value, "0.00");
}

#[test]
fn gpu_active_line() {
    assert_eq!(get_active_line("0: 300Mhz\n1: 500Mhz *\n2: 800Mhz\n"), Some("500".to_string()));
    assert_eq!(get_active_line("0: 300Mhz\n"), None);
    assert_eq!(get_active_line("weird *\n"), None);
}

#[test]
fn gpu_cards_and_values() {
    assert!(is_gpu_card_name("card0"));
    assert!(is_gpu_card_name("card0-DP-1"));
    assert!(!is_gpu_card_name("card0-HDMI-A"));
    assert!(!is_gpu_card_name("renderD128"));
    let busy = gpu_card_sensor_value("card0", "GPU utilization", "gpu_busy_percent", "%", "42".to_string()).unwrap();
    assert_eq!(busy.id, "gpu_card0_gpu_busy_percent");
    assert_eq!(busy.label, "GPU card0 GPU utilization");
    assert_eq!(busy.value, "42");
    let vram = gpu_card_sensor_value("card0", "VRAM usage", "mem_info_vram_used", "B", "2097152".to_string()).unwrap();
    assert_eq!(vram.value, "2.00");
    assert_eq!(vram.unit, "MB");
    assert!(gpu_card_sensor_value("card0", "VRAM usage", "mem_info_vram_used", "B", "n/a".to_string()).is_none());
}

#[test]
fn mangohud_columns_and_config() {
    assert_eq!(get_unit_by_header_name("gpu_load"), "%");
    assert_eq!(get_unit_by_header_name("cpu_temp"), "°C");
    assert_eq!(get_unit_by_header_name("gpu_core_clock"), "MHz");
    assert_eq!(get_unit_by_header_name("gpu_power"), "W");
    assert_eq!(get_unit_by_header_name("fps"), "");
    let s = mangohud_sensor("gpu_core_clock", "1500.00".to_string());
    assert_eq!(s.id, "mango_gpu_core_clock");
    assert_eq!(s.label, "MangoHUD gpu core clock");
    let conf = "# output_folder=/nope\nfps\noutput_folder = /home/u/logs \nother=1\n";
    assert_eq!(get_mangohud_log_dir_from_file(conf), Some("/home/u/logs".to_string()));
    assert_eq!(get_mangohud_log_dir_from_file("fps\n"), None);
    assert_eq!(get_mangohud_log_dir(Some(conf), Some("output_folder=/user")), Some("/user".to_string()));
    assert_eq!(get_mangohud_log_dir(Some(conf), Some("fps")), Some("/home/u/logs".to_string()));
    assert_eq!(get_mangohud_log_dir(None, None), None);
}

#[test]
fn hardware_monitor_types() {
    assert_eq!(match_sensor_type("Temperature"), (SensorType::Number, "°C".to_string()));
    assert_eq!(match_sensor_type("Control"), (SensorType::Number, "RPM".to_string()));
    assert_eq!(match_sensor_type("Something"), (SensorType::Text, "".to_string()));
    assert_eq!(lhm_label("CPU", "Core Temperature", "Temperature"), "CPU Core Temperature");
    assert_eq!(lhm_label("CPU", "Core #1", "Load"), "CPU Core #1 Load");
}

#[test]
fn dmi_readings() {
    let b = parse_base_board("ACME", "X1", "1.0");
    assert_eq!(b[1].id, "main_board_product_name");
    assert_eq!(b[1].value, "X1");
    let bios = parse_bios("AMI", "F5", "01/01/2020", Some("5.17"), None);
    assert_eq!(bios[3].value, "5.17");
    assert_eq!(bios[4].value, "");
    let m = parse_memory_device("DIMM_A1", "DDR4", "DIMM", Some("3200 MT/s"), "Kingston", " KF432 ", Some(1350));
    assert_eq!(m[0].id, "memory_device_DIMM_A1_memory_type");
    assert_eq!(m[0].value, "DDR4-3200  DIMM ");
    assert_eq!(m[0].label, "Kingston KF432 DIMM_A1 Memory type");
    assert_eq!(m[1].value, "3200 ");
    assert_eq!(m[2].value, "1.35");
    assert_eq!(m[2].unit, "V");
    for mv in [0u16, 1000, 1200, 1350, 1234, 65535, 5] {
        assert_eq!(volts_string(mv), format!("{}", mv as f32 / 1000f32));
    }
}

#[test]
fn aida64_export() {
    let text = "<sys><id>SCPUCLK</id><label>CPU Clock</label><value>3393</value></sys><sys><id>SCPUUTI</id><label>CPU Utilization</label><value>72</value></sys><temp><id>TCPUPKG</id><label>CPU Package</label><value>71</value></temp><pwr><id>PCPUPKG</id><label>CPU Package</label><value>18.94</value></pwr>";
    let sensors = read_sensors(text);
    assert_eq!(sensors.len(), 4);
    assert_eq!(sensors[0].id, "SCPUCLK");
    assert_eq!(sensors[0].label, "CPU Clock");
    assert_eq!(sensors[0].value, "3393");
    assert_eq!(sensors[0].sensor_type, "sys");
    assert_eq!(sensors[2].sensor_type, "temp");
    assert_eq!(sensors[3].value, "18.94");
    let escaped = parse_xml("<root><fan><id>F</id><label>A &amp; B</label><value> 5 </value></fan></root>");
    assert_eq!(escaped.len(), 1);
    assert_eq!(escaped[0].label, "A & B");
    assert_eq!(escaped[0].value, "5");
    assert_eq!(parse_xml("").len(), 0);
}

#[test]
fn aida64_event_stream() {
    let events = vec![
        XmlEvent::Start(b"id".to_vec()),
        XmlEvent::Text(b"X".to_vec()),
        XmlEvent::End(b"id".to_vec()),
        XmlEvent::End(b"fan".to_vec()),
        XmlEvent::Malformed,
        XmlEvent::End(b"fan".to_vec()),
    ];
    let s = parse_events(&events);
    assert_eq!(s.len(), 1);
    assert_eq!(s[0].id, "X");
    assert_eq!(s[0].sensor_type, "fan");
}

#[test]
fn aida64_two_value_export() {
    let sensors = parse_xml("<root><sys><id>SCPUCLK</id><label>CPU Clock</label><value>3393</value></sys><temp><id>TCPUPKG</id><label>CPU Package</label><value>71</value></temp></root>");
    let got: Vec<(&str, &str, &str, &str)> = sensors
        .iter()
        .map(|s| (s.id.as_str(), s.label.as_str(), s.value.as_str(), s.sensor_type.as_str()))
        .collect();
    assert_eq!(got, vec![("SCPUCLK", "CPU Clock", "3393", "sys"), ("TCPUPKG", "CPU Package", "71", "temp")]);
}

#[test]
fn aida64_shared_memory_text_is_wrapped_in_root() {
    let text = "<fan><id>FCPU</id><label>CPU</label><value>3257</value></fan><pwr><id>P</id><label>Pkg</label><value>18.94</value></pwr>";
    let direct = parse_xml(&format!("<root>{}</root>", text));
    let read = read_sensors(text);
    assert_eq!(read.len(), direct.len());
    for (a, b) in read.iter().zip(direct.iter()) {
        assert_eq!((&a.id, &a.label, &a.value, &a.sensor_type), (&b.id, &b.label, &b.value, &b.sensor_type));
    }
}

#[test]
fn aida64_unreadable_entity_stops_reading() {
    let s = parse_xml("<root><sys><id>A</id><label>x</label><value>1</value></sys><sys><id>B&bogus;</id></sys></root>");
    assert_eq!(s.len(), 1);
    assert_eq!(s[0].id, "A");
}

#[test]
fn memory_and_address_readings() {
    let r = memory_sensors(8 * 1024 * 1024 * 1024, 2 * 1024 * 1024 * 1024);
    assert_eq!((r[0].id.as_str(), r[0].value.as_str(), r[0].unit.as_str()), ("memory_total", "8.00", "GB"));
    assert_eq!((r[1].id.as_str(), r[1].value.as_str(), r[1].unit.as_str()), ("memory_used", "6.00", "GB"));
    assert_eq!((r[2].id.as_str(), r[2].label.as_str()), ("memory_free", "Free memory"));
    assert_eq!(memory_sensors(10, 20)[1].value, "0.00");
    let ip = network_ip_sensor("eth0", "10.0.0.5".to_string());
    assert_eq!((ip.id.as_str(), ip.label.as_str(), ip.value.as_str()), ("network_ip_eth0", "eth0 IP", "10.0.0.5"));
}
