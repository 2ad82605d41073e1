use nros::cli::{cargo_build_args, BuildProfile, BuildSystem, ProjectInitializer};
use std::time::Duration;

#[test]
fn test_project_name_validation() {
    assert!(ProjectInitializer::is_valid_project_name("my_robot"));
    assert!(ProjectInitializer::is_valid_project_name("my-robot"));
    assert!(!ProjectInitializer::is_valid_project_name("123robot"));
    assert!(ProjectInitializer::is_valid_project_name("_robot"));
}

#[test]
fn test_build_profile_parsing() {
    assert_eq!(BuildProfile::from_str("realtime"), Some(BuildProfile::Realtime));
    assert_eq!(BuildProfile::from_str("embedded"), Some(BuildProfile::Embedded));
    assert_eq!(BuildProfile::from_str("unknown"), None);
}

#[test]
fn cli_project_name_edge_cases() {
    assert!(!ProjectInitializer::is_valid_project_name(""));
    assert!(!ProjectInitializer::is_valid_project_name("my robot"));
    assert!(!ProjectInitializer::is_valid_project_name("-robot"));
    assert!(ProjectInitializer::is_valid_project_name("r"));
}

#[test]
fn cli_profile_name_roundtrip() {
    for p in [BuildProfile::Debug, BuildProfile::Release, BuildProfile::Realtime, BuildProfile::Embedded] {
        assert_eq!(BuildProfile::from_str(p.as_str()), Some(p));
    }
    assert_eq!(BuildProfile::Embedded.as_str(), "embedded");
}

#[test]
fn cli_build_summary_sizes() {
    let out = BuildSystem::summarize(BuildProfile::Realtime, Duration::from_millis(5));
    assert_eq!(out.profile, BuildProfile::Realtime);
    assert_eq!(out.binary_size_kb, 950);
    assert_eq!(out.features.len(), 5);
    assert_eq!(out.features[3], "real-time guarantees");
    let emb = BuildSystem::summarize(BuildProfile::Embedded, Duration::from_millis(0));
    assert_eq!(emb.binary_size_kb, 480);
}

#[test]
fn cli_template_dependencies() {
    assert_eq!(ProjectInitializer::template_dependencies("unknown"), "");
    let toml = ProjectInitializer::generate_toml("rover", "mobile_base");
    assert!(toml.starts_with("[package]\nname = \"rover\"\n"));
    assert!(toml.contains("template = \"mobile_base\""));
    let launch = ProjectInitializer::generate_launch_file("rover");
    assert!(launch.contains("rover"));
    let readme = ProjectInitializer::generate_readme("rover", "basic");
    assert!(readme.starts_with("# rover — NROS Project (basic)"));
}

#[test]
fn cli_cargo_build_arguments() {
    assert_eq!(cargo_build_args(BuildProfile::Debug, None), vec!["build".to_string()]);
    assert_eq!(cargo_build_args(BuildProfile::Release, None), vec!["build", "--release"]);
    assert_eq!(
        cargo_build_args(BuildProfile::Realtime, Some("thumbv7em-none-eabihf")),
        vec!["build", "--profile", "realtime", "--features", "real-time", "--target", "thumbv7em-none-eabihf"]
    );
    assert_eq!(cargo_build_args(BuildProfile::Embedded, None), vec!["build", "--profile", "embedded"]);
}
