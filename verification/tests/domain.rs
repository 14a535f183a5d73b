use nexus::domain::{check_command, CommandKind, SafetyVerdict, Capability, CapabilityManifest, CapabilityQuery, CapabilitySet, Health, SafetyState};
use nexus::fleet::eligible;
use nexus::ncm::CapabilityManifestV2;

fn manifest(caps: &[&str]) -> CapabilityManifest {
    CapabilityManifest {
        robot_id: "x".into(),
        name: "x".into(),
        architecture: "x".into(),
        capabilities: CapabilitySet::from_capabilities(caps.iter().map(|c| Capability::new(c)).collect()),
    }
}

#[test]
fn rgbd_satisfies_depth_and_rgb() {
    let m = CapabilityManifest {
        robot_id: "x".into(),
        name: "x".into(),
        architecture: "x".into(),
        capabilities: CapabilitySet::from_capabilities(vec![Capability::new("vision.rgbd")]),
    };
    assert!(m.supports("vision.depth"));
    assert!(m.supports("vision.rgb"));
}

#[test]
fn capabilities_are_lower_cased_and_matched_case_insensitively() {
    assert_eq!(Capability::new("Vision.RGB").0, "vision.rgb");
    let m = manifest(&["Sensing.Lidar"]);
    assert!(m.supports("SENSING.LIDAR"));
    assert!(!m.supports("vision.depth"));
    assert!(!manifest(&["vision.rgb"]).supports("vision.depth"));
}

#[test]
fn missing_lists_unsatisfied_requirements_in_order() {
    let m = manifest(&["vision.rgb", "locomotion.control"]);
    let reqs = vec!["audio.speakers".to_string(), "vision.rgb".to_string(), "power.battery".to_string()];
    assert_eq!(m.missing(&reqs), vec!["audio.speakers".to_string(), "power.battery".to_string()]);
    let query = CapabilityQuery { requirements: reqs };
    let result = query.evaluate(&m);
    assert!(!result.compatible);
    assert_eq!(result.missing.len(), 2);
    assert!(CapabilityQuery { requirements: vec!["vision.rgb".into()] }.evaluate(&m).compatible);
}

#[test]
fn safety_labels_are_stable() {
    assert_eq!(SafetyState::Safe.label(), "SAFE");
    assert_eq!(SafetyState::EmergencyStop.label(), "EMERGENCY_STOP");
}

#[test]
fn static_manifest_records_every_capability() {
    let v2 = CapabilityManifestV2::from_static(manifest(&["vision.rgb", "sensing.imu"]), "profile");
    assert_eq!(v2.records.len(), 2);
    assert_eq!(v2.records.get("sensing.imu").unwrap().provenance.provider, "profile");
    assert!(v2.supports("vision.rgb"));
    assert!(!v2.supports("vision.depth"));
}

#[test]
fn fleet_eligibility_needs_connection_health_group_and_capabilities() {
    let m = manifest(&["vision.rgb", "manipulators.gripper"]);
    assert!(eligible(true, Health::Healthy, "warehouse", &m, &["vision.rgb"], Some("warehouse")));
    assert!(eligible(true, Health::Healthy, "warehouse", &m, &["VISION.RGB", "manipulators.left.gripper"], None));
    assert!(eligible(true, Health::Healthy, "warehouse", &m, &[], None));
    assert!(!eligible(false, Health::Healthy, "warehouse", &m, &["vision.rgb"], None));
    assert!(!eligible(true, Health::Degraded, "warehouse", &m, &["vision.rgb"], None));
    assert!(!eligible(true, Health::Healthy, "warehouse", &m, &["vision.rgb"], Some("lab")));
    assert!(!eligible(true, Health::Healthy, "warehouse", &m, &["sensing.lidar"], None));
}

#[test]
fn safety_checks_run_in_order() {
    assert_eq!(check_command(SafetyState::EmergencyStop, CommandKind::Move, Some("no-entry"), false, true), SafetyVerdict::EmergencyStopActive);
    assert_eq!(check_command(SafetyState::EmergencyStop, CommandKind::Stop, None, false, false), SafetyVerdict::Allowed);
    assert_eq!(check_command(SafetyState::EmergencyStop, CommandKind::Stop, Some("no-entry"), false, false), SafetyVerdict::RestrictedZone);
    assert_eq!(check_command(SafetyState::Safe, CommandKind::SetJoint, Some("no-entry"), true, false), SafetyVerdict::RestrictedZone);
    assert_eq!(check_command(SafetyState::Safe, CommandKind::SetJoint, Some("aisle"), true, false), SafetyVerdict::JointLimit);
    assert_eq!(check_command(SafetyState::Safe, CommandKind::Move, None, true, false), SafetyVerdict::Allowed);
    assert_eq!(check_command(SafetyState::Caution, CommandKind::Move, None, false, true), SafetyVerdict::SpeedLimit);
    assert_eq!(check_command(SafetyState::Safe, CommandKind::Stop, None, true, true), SafetyVerdict::Allowed);
}
