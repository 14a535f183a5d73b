use nexus::domain::Health;
use nexus::package::{PackageManifest, PackageType};
use nexus::ncm::{AdapterError, CapabilitySourceType, DeploymentMode, RobotAdapter};
use nexus::nori::{nori_a3_manifest, NoriLabAdapter, SessionConfig, TrainingEnvironment};
use nexus::ros2::{map_endpoint, Ros2Adapter, RosEndpoint, RosEndpointKind};
use nexus::sdk::scaffold;

fn endpoint(name: &str, message_type: &str) -> RosEndpoint {
    RosEndpoint { name: name.into(), message_type: message_type.into(), kind: RosEndpointKind::Topic }
}

#[test]
fn adapter_requires_connection_and_reports_lifecycle() {
    let mut adapter = Ros2Adapter::new(vec![]);
    assert_eq!(adapter.health(), Health::Offline);
    assert!(matches!(adapter.discover(), Err(AdapterError::Unavailable(_))));
    adapter.connect().unwrap();
    assert_eq!(adapter.health(), Health::Healthy);
    adapter.stop().unwrap();
    assert!(adapter.stop_requested());
    let telemetry = adapter.telemetry().unwrap();
    assert_eq!(telemetry.get("ros2.stop_requested").map(String::as_str), Some("true"));
    adapter.disconnect().unwrap();
    assert_eq!(adapter.health(), Health::Offline);
}

#[test]
fn unknown_ros_types_do_not_become_capabilities() {
    let mut adapter = Ros2Adapter::new(vec![endpoint("/private/control", "vendor_msgs/msg/UnsafeCommand")]);
    adapter.connect().unwrap();
    let manifest = adapter.discover().unwrap();
    assert!(manifest.records.is_empty());
}

#[test]
fn common_ros_interfaces_map_to_ncm() {
    let mut adapter = Ros2Adapter::new(vec![
        endpoint("/cam", "sensor_msgs/msg/Image"),
        endpoint("/base", "geometry_msgs/msg/Twist"),
    ]);
    adapter.connect().unwrap();
    let manifest = adapter.discover().unwrap();
    assert!(manifest.supports("vision.rgb"));
    assert!(manifest.supports("locomotion.control"));
}

#[test]
fn ros_discovery_marks_records_as_discovered() {
    let mut adapter = Ros2Adapter::new(vec![
        endpoint("/scan", "sensor_msgs/msg/LaserScan"),
        endpoint("/points", "sensor_msgs/msg/PointCloud2"),
        endpoint("/imu", "sensor_msgs/msg/Imu"),
    ]);
    assert_eq!(adapter.name(), "ros2");
    assert_eq!(adapter.mode(), DeploymentMode::Adapter);
    adapter.connect().unwrap();
    let manifest = adapter.discover().unwrap();
    assert_eq!(manifest.records.len(), 2);
    let lidar = manifest.records.get("sensing.lidar").unwrap();
    assert!(lidar.enabled);
    assert_eq!(lidar.provenance.source_type, CapabilitySourceType::Discovered);
    assert_eq!(lidar.provenance.provider, "ros2-adapter");
    assert_eq!(manifest.base.robot_id, "ros2-discovered");
    let telemetry = adapter.telemetry().unwrap();
    assert_eq!(telemetry.get("ros2.endpoints").map(String::as_str), Some("3"));
    assert_eq!(telemetry.get("ros2.connected").map(String::as_str), Some("true"));
    adapter.stop().unwrap();
    adapter.connect().unwrap();
    assert!(!adapter.stop_requested());
}

#[test]
fn ros_stop_flag_follows_the_last_connect() {
    let mut adapter = Ros2Adapter::new(vec![]);
    assert!(!adapter.stop_requested());
    adapter.stop().unwrap();
    assert!(adapter.stop_requested());
    adapter.disconnect().unwrap();
    assert!(adapter.stop_requested());
    adapter.connect().unwrap();
    assert!(!adapter.stop_requested());
    let _ = adapter.discover();
    adapter.disconnect().unwrap();
    assert!(!adapter.stop_requested());
    let telemetry = adapter.telemetry().unwrap();
    assert_eq!(telemetry.get("ros2.stop_requested").map(String::as_str), Some("false"));
    adapter.stop().unwrap();
    let telemetry = adapter.telemetry().unwrap();
    assert_eq!(telemetry.get("ros2.stop_requested").map(String::as_str), Some("true"));
}

#[test]
fn ros_message_types_map_to_known_capabilities_only() {
    assert_eq!(map_endpoint(&endpoint("/c", "sensor_msgs/msg/CameraInfo")), Some("vision.camera_calibration"));
    assert_eq!(map_endpoint(&endpoint("/b", "sensor_msgs/msg/BatteryState")), Some("power.battery"));
    assert_eq!(
        map_endpoint(&endpoint("/a", "control_msgs/action/FollowJointTrajectory")),
        Some("manipulators.joint_trajectory")
    );
    assert_eq!(map_endpoint(&endpoint("/x", "sensor_msgs/msg/image")), None);
}

#[test]
fn compatibility_adapter_discovers_without_vendor_api() {
    let mut adapter = NoriLabAdapter::default();
    adapter.connect().unwrap();
    let manifest = adapter.discover().unwrap();
    assert!(manifest.supports("vision.rgb"));
    assert!(!manifest.supports("vision.depth"));
    let id = adapter.start_session(SessionConfig { name: "evaluation".into(), dataset: None }).unwrap();
    adapter.stop_session(&id).unwrap();
}

#[test]
fn nori_sessions_need_a_connection_and_are_numbered() {
    let mut adapter = NoriLabAdapter::default();
    assert_eq!(
        adapter.start_session(SessionConfig { name: "x".into(), dataset: None }),
        Err(AdapterError::Unavailable("Nori-Lab adapter is disconnected".to_string()))
    );
    assert!(matches!(adapter.discover(), Err(AdapterError::Unavailable(_))));
    adapter.connect().unwrap();
    let first = adapter.start_session(SessionConfig { name: "a".into(), dataset: None }).unwrap();
    let second = adapter.start_session(SessionConfig { name: "b".into(), dataset: Some("d".into()) }).unwrap();
    assert_eq!(first, "nori-session-1");
    assert_eq!(second, "nori-session-2");
    let sessions = adapter.sessions().unwrap();
    assert_eq!(sessions.len(), 2);
    assert_eq!(sessions[0].status, "running: a");
    assert_eq!(
        adapter.stop_session("nori-session-9"),
        Err(AdapterError::OperationDenied("unknown session".to_string()))
    );
    adapter.stop().unwrap();
    assert!(adapter.sessions().unwrap().iter().all(|s| s.status == "stopped"));
    let telemetry = adapter.telemetry().unwrap();
    assert_eq!(telemetry.get("training.sessions").map(String::as_str), Some("2"));
    assert_eq!(adapter.mode(), DeploymentMode::Compatibility);
}

#[test]
fn nori_profile_declares_depth_as_not_inferred() {
    let manifest = nori_a3_manifest();
    assert_eq!(manifest.base.capabilities.len(), 7);
    let depth = manifest.records.get("vision.depth").unwrap();
    assert!(!depth.enabled);
    assert_eq!(depth.provenance.source_type, CapabilitySourceType::Derived);
    assert!(manifest.records.get("manipulators.left.dof").unwrap().enabled);
    assert_eq!(manifest.records.len(), 9);
}

#[test]
fn scaffold_keeps_control_unprivileged() {
    let output = scaffold("demo", "serial", &["vision.rgb"]);
    assert!(output.contains("telemetry.read"));
    assert!(!output.contains("servo.control"));
}

#[test]
fn scaffold_writes_the_exact_skeleton() {
    let output = scaffold("demo", "can", &["vision.rgb", "sensing.imu"]);
    assert_eq!(
        output,
        "package:\n  name: demo\n  version: 0.1.0\n  type: adapter\ncompatibility:\n  nexus: \">=2.0\"\nadapter:\n  transport: can\ncapabilities:\n  - vision.rgb\n  - sensing.imu\npermissions:\n  - telemetry.read\n"
    );
}

#[test]
fn scaffold_parses_back_as_its_manifest() {
    let output = scaffold("demo-arm", "can bus", &["vision.rgb", "manipulators.gripper"]);
    let manifest = PackageManifest::parse(&output).unwrap();
    assert_eq!(manifest.name, "demo-arm");
    assert_eq!(manifest.version, "0.1.0");
    assert_eq!(manifest.package_type, PackageType::Adapter);
    assert_eq!(manifest.nexus_compatibility, "\">=2.0\"");
    assert_eq!(manifest.components, vec!["vision.rgb", "manipulators.gripper", "telemetry.read"]);
    assert!(manifest.permissions.is_empty());
    assert_eq!(manifest.publisher, None);
    assert_eq!(manifest.signature, None);
}
