use sensor_bridge::render::{
    extract_value_sequence, file_stem, format_text, parse_floor_exec, parse_integer_exec,
    replace_all_exec, select_conditional_image, text_content,
};
use sensor_bridge::sensor::{SensorType, SensorValue};

fn reading(id: &str, value: &str, unit: &str) -> SensorValue {
    SensorValue {
        id: id.to_string(),
        value: value.to_string(),
        unit: unit.to_string(),
        label: id.to_string(),
        sensor_type: SensorType::Number,
    }
}

#[test]
fn text_substitution_scenario() {
    let snapshot = vec![reading("cpu_temp_package", "71.00", "°C")];
    assert_eq!(text_content("{value}{unit}", "cpu_temp_package", &snapshot), "71.00°C");
    assert_eq!(text_content("{value}{unit}", "cpu_temp_package", &vec![]), "N/A");
    assert_eq!(text_content("CPU: {value} {unit}!", "cpu_temp_package", &snapshot), "CPU: 71.00 °C!");
}

#[test]
fn template_replacement_matches_str_replace() {
    for (f, v, u) in [("{value}{value}", "1", "%"), ("{unit}-{value}", "x", "y"), ("plain", "a", "b"), ("{val{value}ue}", "Z", "")] {
        let expected = f.replace("{value}", v).replace("{unit}", u);
        assert_eq!(format_text(f, v, u), expected);
    }
    assert_eq!(replace_all_exec("aaa", "aa", "b"), "aaa".replace("aa", "b"));
}

#[test]
fn conditional_image_scenario() {
    let names: Vec<String> = vec!["10.png".to_string(), "50.png".to_string(), "90.png".to_string()];
    assert_eq!(select_conditional_image(&names, "55", SensorType::Number), Some(1));
    assert_eq!(select_conditional_image(&names, "55.70", SensorType::Number), Some(1));
    assert_eq!(select_conditional_image(&names, "90", SensorType::Number), Some(2));
    assert_eq!(select_conditional_image(&names, "9.99", SensorType::Number), None);
    assert_eq!(select_conditional_image(&names, "abc", SensorType::Number), None);
}

#[test]
fn conditional_image_text_match_ignores_case() {
    let names: Vec<String> = vec!["idle.png".to_string(), "Gaming.PNG".to_string()];
    assert_eq!(select_conditional_image(&names, "GAMING", SensorType::Text), Some(1));
    assert_eq!(select_conditional_image(&names, "busy", SensorType::Text), None);
}

#[test]
fn numeric_parsing() {
    assert_eq!(parse_floor_exec("55.70"), Some(55));
    assert_eq!(parse_floor_exec("-5.5"), Some(-6));
    assert_eq!(parse_floor_exec("-5.0"), Some(-5));
    assert_eq!(parse_floor_exec("12."), Some(12));
    assert_eq!(parse_floor_exec(".5"), None);
    assert_eq!(parse_floor_exec("1e3"), None);
    assert_eq!(parse_integer_exec("-40"), Some(-40));
    assert_eq!(parse_integer_exec("4x"), None);
    assert_eq!(file_stem("archive.tar.gz"), "archive.tar");
    assert_eq!(file_stem("noext"), "noext");
}

#[test]
fn graph_values_newest_first_skipping_missing() {
    let history = vec![
        vec![reading("cpu", "3", "%")],
        vec![reading("other", "9", "%")],
        vec![reading("cpu", "1", "%")],
    ];
    assert_eq!(extract_value_sequence(&history, "cpu"), vec!["3".to_string(), "1".to_string()]);
}
