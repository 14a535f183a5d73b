use nexus::domain::{Capability, CapabilityManifest, CapabilitySet, SafetyState, TaskNode};
use nexus::skills::{plan_task, AdmissionError, RegistryError, SkillRegistry};

fn robot(caps: &[&str]) -> CapabilityManifest {
    CapabilityManifest {
        robot_id: "r".into(),
        name: "r".into(),
        architecture: "sim".into(),
        capabilities: CapabilitySet::from_capabilities(caps.iter().map(|c| Capability::new(c)).collect()),
    }
}

#[test]
fn builtin_registry_holds_every_skill_in_name_order() {
    let registry = SkillRegistry::builtin();
    let names: Vec<String> = registry.list().iter().map(|m| m.name.clone()).collect();
    assert_eq!(names.len(), 35);
    let mut sorted = names.clone();
    sorted.sort();
    assert_eq!(names, sorted);
    let pick = registry.get("pick_up").unwrap();
    assert_eq!(pick.version, "0.5.0");
    assert_eq!(pick.description, "Grasp an identified object.");
    assert_eq!(pick.requires, vec!["vision.rgb", "manipulators.right.gripper"]);
    assert_eq!(pick.permissions, vec!["camera.read", "manipulator.right.control"]);
    assert_eq!(pick.contract.min_battery_percent, 25);
    assert!(registry.get("pause").unwrap().requires.is_empty());
    assert!(registry.get("fly").is_none());
}

#[test]
fn compatibility_reports_missing_capabilities() {
    let registry = SkillRegistry::builtin();
    let wheeled = robot(&["locomotion.control", "vision.rgbd"]);
    let pick = registry.compatibility("pick_up", &wheeled).unwrap();
    assert!(!pick.compatible);
    assert_eq!(pick.missing, vec!["manipulators.right.gripper"]);
    assert!(registry.compatibility("walk_to", &wheeled).unwrap().compatible);
    assert_eq!(
        registry.compatibility("fly", &wheeled).unwrap_err(),
        RegistryError::UnknownSkill("fly".to_string())
    );
}

#[test]
fn local_manifests_install_by_name() {
    let mut registry = SkillRegistry::builtin();
    let name = registry.install_local_manifest("  name:  wave_hello \nversion: 1.2.0\n").unwrap();
    assert_eq!(name, "wave_hello");
    let skill = registry.get("wave_hello").unwrap();
    assert_eq!(skill.version, "1.2.0");
    assert_eq!(skill.description, "Locally installed skill");
    assert_eq!(registry.list().len(), 36);
    registry.install_local_manifest("name: nod\n").unwrap();
    assert_eq!(registry.get("nod").unwrap().version, "0.1.0");
    assert_eq!(registry.install_local_manifest("version: 1\n"), Err(RegistryError::InvalidSkillManifest));
}

#[test]
fn planner_produces_fetch_graph() {
    assert!(plan_task("Bring me the red cube").nodes.len() >= 6);
}

#[test]
fn planner_covers_return_and_unknown_requests() {
    let fetch = plan_task("PICK it up");
    assert_eq!(fetch.task_id, "planned-task");
    assert_eq!(fetch.nodes[3], TaskNode::Condition("grasp_verified".to_string()));
    let home = plan_task("go home");
    assert_eq!(home.nodes, vec![TaskNode::Action("return_home".to_string())]);
    let other = plan_task("dance");
    assert_eq!(
        other.nodes,
        vec![TaskNode::Recovery("No deterministic plan available; use an explicit skill.".to_string())]
    );
}

#[test]
fn emergency_stop_refuses_every_skill() {
    let registry = SkillRegistry::builtin();
    let wheeled = robot(&["locomotion.control", "vision.rgbd"]);
    assert_eq!(registry.admission("walk_to", SafetyState::EmergencyStop, &wheeled).unwrap_err(), AdmissionError::EmergencyStop);
    assert_eq!(registry.admission("fly", SafetyState::EmergencyStop, &wheeled).unwrap_err(), AdmissionError::EmergencyStop);
    assert_eq!(
        registry.admission("fly", SafetyState::Safe, &wheeled).unwrap_err(),
        AdmissionError::UnknownSkill("fly".to_string())
    );
    assert_eq!(
        registry.admission("pick_up", SafetyState::Safe, &wheeled).unwrap_err(),
        AdmissionError::CapabilityMissing(vec!["manipulators.right.gripper".to_string()])
    );
    let contract = registry.admission("walk_to", SafetyState::Caution, &wheeled).unwrap();
    assert_eq!(contract.min_battery_percent, 15);
    assert!(contract.exclusive_resources.contains("base"));
}
