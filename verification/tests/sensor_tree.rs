use system_monitor::cpu::{cpu_metrics_for, get_cpu_metrics, USER_CPU};
use system_monitor::sensor::{collect_data, extract_number, find_node, SensorNode};
use system_monitor::text::{first_word_of, is_white_space, str_equals, str_starts_with};

fn leaf(text: &str, value: Option<&str>) -> SensorNode {
    SensorNode {
        text: text.to_string(),
        children: None,
        value: value.map(|v| v.to_string()),
    }
}

fn branch(text: &str, children: Vec<SensorNode>) -> SensorNode {
    SensorNode {
        text: text.to_string(),
        children: Some(children),
        value: Some(String::new()),
    }
}

fn sample_tree() -> SensorNode {
    branch(
        "Sensor",
        vec![branch(
            "DESKTOP",
            vec![
                branch("Generic Memory", vec![branch("Load", vec![leaf("Memory", Some("61.2 %"))])]),
                branch(
                    USER_CPU,
                    vec![
                        branch(
                            "Clocks",
                            vec![
                                leaf("Bus Speed", Some("100 MHz")),
                                leaf("CPU Core #1", Some("2095 MHz")),
                                leaf("CPU Core #2", Some("2394 MHz")),
                            ],
                        ),
                        branch(
                            "Temperatures",
                            vec![
                                leaf("CPU Core #1", Some("48.0 °C")),
                                leaf("CPU Core #2", None),
                                leaf("CPU Package", Some("51.0 °C")),
                            ],
                        ),
                        branch(
                            "Load",
                            vec![
                                leaf("CPU Total", Some("12.5 %")),
                                leaf("CPU Core #1", Some("10.9 %")),
                                leaf("CPU Core #2", Some("14.1 %")),
                            ],
                        ),
                    ],
                ),
            ],
        )],
    )
}

fn strings(v: &[&str]) -> Vec<String> {
    v.iter().map(|s| s.to_string()).collect()
}

#[test]
fn white_space_matches_std() {
    for code in 0u32..=0x10FFFF {
        if let Some(c) = char::from_u32(code) {
            assert_eq!(is_white_space(c), c.is_whitespace(), "U+{:04X}", code);
        }
    }
}

#[test]
fn extract_number_takes_first_word() {
    assert_eq!(extract_number("42.5 °C"), "42.5");
    assert_eq!(extract_number("2095 MHz"), "2095");
    assert_eq!(extract_number("\t 12.5\u{a0}%"), "12.5");
    assert_eq!(extract_number("7"), "7");
}

#[test]
fn extract_number_of_blank_reading_is_na() {
    assert_eq!(extract_number(""), "N/A");
    assert_eq!(extract_number("   \n\u{3000}"), "N/A");
}

#[test]
fn extract_number_is_idempotent() {
    for s in ["42.5 °C", "", "  x y z", "N/A", "abc"] {
        let once = extract_number(s);
        assert!(!once.is_empty());
        assert!(!once.chars().any(|c| c.is_whitespace()));
        assert_eq!(extract_number(&once), once);
    }
}

#[test]
fn text_helpers() {
    assert!(str_equals("Load", "Load"));
    assert!(!str_equals("Load", "Loads"));
    assert!(str_starts_with("CPU Core #3", "CPU Core"));
    assert!(!str_starts_with("CPU Cor", "CPU Core"));
    assert!(!str_starts_with("GPU Core", "CPU Core"));
    assert_eq!(first_word_of("  a b"), Some("a".to_string()));
    assert_eq!(first_word_of(" \t"), None);
}

#[test]
fn find_node_finds_first_in_preorder() {
    let tree = sample_tree();
    let load = find_node(&tree, "Load").expect("a Load node");
    // The memory group's "Load" comes before the processor's in pre-order.
    assert_eq!(load.children.as_ref().unwrap()[0].text, "Memory");
    let cpu = find_node(&tree, USER_CPU).expect("the processor node");
    let cpu_load = find_node(cpu, "Load").unwrap();
    assert_eq!(cpu_load.children.as_ref().unwrap()[0].text, "CPU Total");
}

#[test]
fn find_node_matches_the_root_itself() {
    let tree = sample_tree();
    let found = find_node(&tree, "Sensor").unwrap();
    assert!(std::ptr::eq(found, &tree));
}

#[test]
fn find_node_reports_absence() {
    let tree = sample_tree();
    assert!(find_node(&tree, "Fans").is_none());
    assert!(find_node(&tree, "load").is_none());
    assert!(find_node(&leaf("x", None), "y").is_none());
}

#[test]
fn collect_data_keeps_core_values_in_order() {
    let clocks = branch(
        "Clocks",
        vec![
            leaf("Bus Speed", Some("100 MHz")),
            leaf("CPU Core #1", Some("2095 MHz")),
            leaf("CPU Core #2", None),
            leaf("CPU Core #3", Some("2394 MHz")),
            leaf("GPU Core", Some("1 MHz")),
        ],
    );
    assert_eq!(collect_data(&clocks), strings(&["2095 MHz", "2394 MHz"]));
}

#[test]
fn collect_data_without_children_is_empty() {
    assert!(collect_data(&leaf("Clocks", Some("x"))).is_empty());
    assert!(collect_data(&branch("Clocks", vec![])).is_empty());
}

#[test]
fn cpu_metrics_of_sample_tree() {
    let m = get_cpu_metrics(&sample_tree());
    assert_eq!(m.frequencies, Some(strings(&["2095 MHz", "2394 MHz"])));
    assert_eq!(m.core_loads, Some(strings(&["10.9 %", "14.1 %"])));
    assert_eq!(m.total_load, Some("12.5".to_string()));
    assert_eq!(m.temperatures, Some(strings(&["48.0 °C"])));
    assert_eq!(m.package_temp, Some("51.0".to_string()));
}

#[test]
fn cpu_metrics_of_unknown_processor_are_empty() {
    let m = cpu_metrics_for(&sample_tree(), "AMD Ryzen 5");
    assert!(m.frequencies.is_none());
    assert!(m.core_loads.is_none());
    assert!(m.total_load.is_none());
    assert!(m.temperatures.is_none());
    assert!(m.package_temp.is_none());
}

#[test]
fn cpu_metrics_with_missing_groups() {
    let tree = branch(
        "Sensor",
        vec![branch(USER_CPU, vec![branch("Load", vec![leaf("CPU Total", None)])])],
    );
    let m = get_cpu_metrics(&tree);
    assert!(m.frequencies.is_none());
    assert_eq!(m.core_loads, Some(Vec::new()));
    assert!(m.total_load.is_none());
    assert!(m.temperatures.is_none());
    assert!(m.package_temp.is_none());
}

#[test]
fn cpu_metrics_blank_total_is_na() {
    let tree = branch(
        USER_CPU,
        vec![branch("Temperatures", vec![leaf("CPU Package", Some(" "))])],
    );
    let m = get_cpu_metrics(&tree);
    assert_eq!(m.package_temp, Some("N/A".to_string()));
    assert_eq!(m.temperatures, Some(Vec::new()));
}
