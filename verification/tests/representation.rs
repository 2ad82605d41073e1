use nros::representation::{capability_field, contains_text, count_occurrences, represented_crates, trim_text, workspace_members};

const CAPABILITIES: &str = "schema_version: 1\nproject: NROS\ncapabilities:\n  - id: CORE-IPC-001\n    crate: nros-core\n    state: TESTED\n  - id: HAL-001\n    crate: nros-hal  \n    state: SCAFFOLDED\r\n  - id: CLI-001\n    state: IMPLEMENTED\n";

#[test]
fn representation_capability_field_reads_entry() {
    assert_eq!(capability_field(CAPABILITIES, "CORE-IPC-001", "crate"), Some("nros-core".to_string()));
    assert_eq!(capability_field(CAPABILITIES, "CORE-IPC-001", "state"), Some("TESTED".to_string()));
    assert_eq!(capability_field(CAPABILITIES, "HAL-001", "crate"), Some("nros-hal".to_string()));
    assert_eq!(capability_field(CAPABILITIES, "HAL-001", "state"), Some("SCAFFOLDED".to_string()));
    assert_eq!(capability_field(CAPABILITIES, "CLI-001", "crate"), None);
    assert_eq!(capability_field(CAPABILITIES, "SIM-001", "crate"), None);
}

#[test]
fn representation_represented_crates_once_each() {
    let mut crates = represented_crates(CAPABILITIES);
    crates.sort();
    assert_eq!(crates, vec!["nros-core".to_string(), "nros-hal".to_string()]);
    let arch = "components:\n  - name: core\n    crate: nros-core\n    crate:   nros-core\n    crate: nros-cli\n  - crate: nros-sim\n";
    assert_eq!(represented_crates(arch), vec!["nros-core".to_string(), "nros-cli".to_string()]);
}

#[test]
fn representation_workspace_members_from_manifest() {
    let manifest = "[workspace]\nmembers = [\n    \"crates/nros-core\",\n    \"crates/nros-node\",\n    \"tools/x\",\n]\n";
    assert_eq!(workspace_members(manifest), vec!["crates/nros-core".to_string(), "crates/nros-node".to_string()]);
    assert!(workspace_members("").is_empty());
}

#[test]
fn representation_text_queries() {
    assert!(contains_text(CAPABILITIES, "project: NROS"));
    assert!(!contains_text(CAPABILITIES, "project: ROS2"));
    assert_eq!(count_occurrences(CAPABILITIES, "  - id: HAL-001"), 1);
    assert_eq!(count_occurrences("aaaa", "aa"), 2);
    assert_eq!(count_occurrences("abc", ""), "abc".matches("").count());
    assert_eq!(count_occurrences("", ""), 1);
    assert_eq!(trim_text("\t a b \u{3000}\n"), "a b");
}
