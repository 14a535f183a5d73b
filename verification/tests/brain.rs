use nexus::brain::{
    capabilities_from_profile, manifest_from_profile, upgrade_advisor, AdaptiveRuntimePlanner, CapabilityIndex,
    FeatureLevel, HardwareProfile, IntelligenceClass, MemCorePlan,
};

#[test]
fn minimum_robot_is_recommended_as_lite_and_keeps_control_local() {
    let plan = AdaptiveRuntimePlanner::plan(&HardwareProfile::minimum_robot());
    assert_eq!(plan.class, IntelligenceClass::N1Lite);
    assert!(plan.local_workloads.iter().any(|item| item.contains("Safety")));
    assert!(plan.disabled.iter().any(|item| item.contains("Local model")));
}

#[test]
fn nxr2_has_enhanced_or_better_perception_features() {
    let plan = AdaptiveRuntimePlanner::plan(&HardwareProfile::nxr2_on("x86_64"));
    assert_eq!(plan.structure_scan, FeatureLevel::Advanced);
    assert_eq!(plan.sense_hopping, FeatureLevel::Advanced);
}

#[test]
fn manifest_round_trip_preserves_profile_inputs() {
    let profile = HardwareProfile::minimum_robot();
    let parsed = HardwareProfile::from_manifest(&profile.to_manifest()).unwrap();
    assert_eq!(parsed.ram_mb, 1024);
    assert_eq!(parsed.motors, 2);
    assert_eq!(parsed.name, "Nexus Minimum Robot");
}

#[test]
fn manifest_round_trip_keeps_every_written_field() {
    let mut profile = HardwareProfile::nxr2_on("aarch64");
    profile.name = "Lab = Bench 7".to_string();
    profile.robot_type = String::new();
    profile.battery_percent = Some(12);
    profile.speakers = 9;
    let parsed = HardwareProfile::from_manifest(&profile.to_manifest()).unwrap();
    assert_eq!(parsed.name, "Lab = Bench 7");
    assert_eq!(parsed.robot_type, "");
    assert_eq!(parsed.architecture, "aarch64");
    assert_eq!(parsed.cpu_cores, profile.cpu_cores);
    assert_eq!(parsed.ram_mb, profile.ram_mb);
    assert_eq!(parsed.storage_gb, profile.storage_gb);
    assert_eq!(parsed.has_gpu, profile.has_gpu);
    assert_eq!(parsed.lidar, profile.lidar);
    assert_eq!(parsed.servos, profile.servos);
    assert_eq!(parsed.grippers, profile.grippers);
    assert_eq!(parsed.network_connected, profile.network_connected);
    // Fields the manifest does not carry come from the minimum robot.
    let minimum = HardwareProfile::minimum_robot();
    assert_eq!(parsed.battery_percent, minimum.battery_percent);
    assert_eq!(parsed.speakers, minimum.speakers);
}

#[test]
fn manifest_errors_name_the_offending_input() {
    let bad_number = HardwareProfile::from_manifest("[compute]\ncores = many\n");
    assert_eq!(bad_number.unwrap_err(), "invalid value for cores: many");
    let bad_line = HardwareProfile::from_manifest("[robot]\nname \"x\"\n");
    assert_eq!(bad_line.unwrap_err(), "invalid manifest line: name \"x\"");
    let no_name = HardwareProfile::from_manifest("[robot]\nname = \"\"\n");
    assert_eq!(no_name.unwrap_err(), "[robot].name is required");
    let defaults = HardwareProfile::from_manifest("# comment only\n").unwrap();
    assert_eq!(defaults.name, "Nexus Minimum Robot");
}

#[test]
fn manifest_text_starts_with_the_robot_section() {
    let text = HardwareProfile::minimum_robot().to_manifest();
    assert!(text.starts_with("[robot]\nname = \"Nexus Minimum Robot\"\ntype = \"mobile-robot\"\n\n[compute]\n"));
    assert!(text.ends_with("[connectivity]\nnetwork = true\n"));
}

#[test]
fn capability_index_and_memory_plan_of_minimum_robot() {
    let profile = HardwareProfile::minimum_robot();
    let index = CapabilityIndex::evaluate(&profile);
    assert_eq!(index.recommended, IntelligenceClass::N1Lite);
    let memory = MemCorePlan::allocate(&profile, index.recommended);
    assert!(memory.runtime_mb > 0);
    assert_eq!(memory.pressure_response(0), memory.pressure_response(0));
}

#[test]
fn profile_capabilities_feed_the_manifest() {
    let profile = HardwareProfile::nxr2_on("x86_64");
    let caps = capabilities_from_profile(&profile);
    let manifest = manifest_from_profile(&profile);
    assert_eq!(caps.len(), manifest.capabilities.len());
    assert!(manifest.supports("vision.rgb"));
}

#[test]
fn upgrade_advice_respects_the_budget() {
    let profile = HardwareProfile::minimum_robot();
    let all = upgrade_advisor(&profile, None);
    let none = upgrade_advisor(&profile, Some(0));
    assert!(none.len() <= all.len());
    assert!(none.iter().all(|r| r.indicative_cost_usd == 0));
}

#[test]
fn depth_is_not_inferred_from_rgb_or_lidar() {
    let mut profile = HardwareProfile::nxr2_on("x86_64");
    profile.depth_cameras = 0;
    let caps = capabilities_from_profile(&profile);
    assert!(!caps.contains("vision.depth"));
    assert!(caps.contains("vision.rgb"));
    assert!(caps.contains("sensing.lidar"));
}
