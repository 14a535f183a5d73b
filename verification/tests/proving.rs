use nexus::lerobot::{export_report, import_report};
use nexus::protocol::{take_camera_offline, VirtualCamera};
use nexus::proving::{
    render_report, ReportFigures,
    average_runtime_ms, count_outcomes, fault_for, highest_earned, standard_evidence, total_unsafe_actions,
    trial_runtime_ms, InjectedFault, TrialOutcome, ValidationEvidence, ValidationLevel, ValidationResult,
    WorldForge,
};
use nexus::structure::{door_change, DoorState, StructureChange};

#[test]
fn local_evidence_earns_virtual_hardware_at_most() {
    assert_eq!(highest_earned(&standard_evidence(true)), ValidationLevel::L1VirtualHardwareVerified);
    assert_eq!(highest_earned(&standard_evidence(false)), ValidationLevel::L0SoftwareVerified);
    assert_eq!(highest_earned(&[]), ValidationLevel::L0SoftwareVerified);
    assert_eq!(standard_evidence(true).len(), 6);
}

fn ev(level: ValidationLevel, result: ValidationResult) -> ValidationEvidence {
    ValidationEvidence { level, result, summary: String::new() }
}

#[test]
fn levels_are_cumulative() {
    let gap = [
        ev(ValidationLevel::L0SoftwareVerified, ValidationResult::Passed),
        ev(ValidationLevel::L1VirtualHardwareVerified, ValidationResult::Passed),
        ev(ValidationLevel::L2PhysicsVerified, ValidationResult::NotRun),
        ev(ValidationLevel::L3AdversariallyVerified, ValidationResult::Passed),
    ];
    assert_eq!(highest_earned(&gap), ValidationLevel::L1VirtualHardwareVerified);
    let no_base = [
        ev(ValidationLevel::L1VirtualHardwareVerified, ValidationResult::Passed),
        ev(ValidationLevel::L2PhysicsVerified, ValidationResult::Passed),
    ];
    assert_eq!(highest_earned(&no_base), ValidationLevel::L0SoftwareVerified);
    let unordered = [
        ev(ValidationLevel::L2PhysicsVerified, ValidationResult::Passed),
        ev(ValidationLevel::L0SoftwareVerified, ValidationResult::Passed),
        ev(ValidationLevel::L1VirtualHardwareVerified, ValidationResult::Passed),
    ];
    assert_eq!(highest_earned(&unordered), ValidationLevel::L2PhysicsVerified);
    let all = [
        ev(ValidationLevel::L0SoftwareVerified, ValidationResult::Passed),
        ev(ValidationLevel::L1VirtualHardwareVerified, ValidationResult::Passed),
        ev(ValidationLevel::L2PhysicsVerified, ValidationResult::Passed),
        ev(ValidationLevel::L3AdversariallyVerified, ValidationResult::Passed),
        ev(ValidationLevel::L4HilVerified, ValidationResult::Passed),
        ev(ValidationLevel::L5RobotVerified, ValidationResult::Passed),
    ];
    assert_eq!(highest_earned(&all), ValidationLevel::L5RobotVerified);
}

#[test]
fn faults_cycle_with_index_and_seed() {
    assert_eq!(fault_for(0, 0), InjectedFault::DepthCameraFailure);
    assert_eq!(fault_for(6, 0), InjectedFault::LowBattery);
    assert_eq!(fault_for(7, 0), InjectedFault::NoFault);
    assert_eq!(fault_for(0, 11), InjectedFault::DepthCameraFailure);
    assert_eq!(fault_for(1, (1u64 << 32) + 1), InjectedFault::LidarNoise);
    assert!(InjectedFault::Darkness.is_sensing_fault());
    assert!(!InjectedFault::LowBattery.is_sensing_fault());
    assert_eq!(InjectedFault::Darkness.label(), "low-light");
    assert_eq!(ValidationLevel::L4HilVerified.label(), "L4 — HIL VERIFIED");
}

#[test]
fn trial_bookkeeping_counts_and_averages() {
    let outcomes = [TrialOutcome::Success, TrialOutcome::SafeAbort, TrialOutcome::Success, TrialOutcome::Failure];
    assert_eq!(count_outcomes(&outcomes, TrialOutcome::Success), 2);
    assert_eq!(count_outcomes(&outcomes, TrialOutcome::SafeAbort), 1);
    assert_eq!(total_unsafe_actions(&[0, 2, 3]), 5);
    assert_eq!(average_runtime_ms(&[12_000, 12_310, 12_620]), 12_310);
    assert_eq!(average_runtime_ms(&[]), 0);
    assert_eq!(trial_runtime_ms(1), 12_310);
    assert_eq!(trial_runtime_ms(9), 12_000);
}

#[test]
fn worldforge_generator_is_seed_reproducible() {
    assert_eq!(WorldForge::next_state(483_208), WorldForge::next_state(483_208));
    assert_eq!(WorldForge::next_state(0), 1);
    let s = 483_208u64.wrapping_mul(6_364_136_223_846_793_005).wrapping_add(1);
    assert_eq!(WorldForge::next_state(483_208), s);
    assert_eq!(WorldForge::sample_bits(u64::MAX), (u64::MAX >> 33) as u32);
}

#[test]
fn camera_faults_take_one_camera_offline() {
    let mut cameras = vec![
        VirtualCamera { id: "front-rgb".into(), online: true, latency_ms: 28 },
        VirtualCamera { id: "front-depth".into(), online: true, latency_ms: 32 },
        VirtualCamera { id: "left-rgb".into(), online: true, latency_ms: 31 },
        VirtualCamera { id: "right-rgb".into(), online: true, latency_ms: 31 },
    ];
    assert_eq!(take_camera_offline(&mut cameras, "front-depth"), 3);
    assert!(!cameras[1].online);
    assert_eq!(take_camera_offline(&mut cameras, "rear"), 3);
}

#[test]
fn door_scan_model_is_versioned_and_diffable() {
    let diff = door_change(18, "D-118", DoorState::Closed, DoorState::Open);
    assert_eq!(diff.changes.len(), 1);
    assert_eq!(diff.to_revision, 19);
    assert_eq!(
        diff.changes[0],
        StructureChange::DoorState { id: "D-118".into(), previous: DoorState::Closed, current: DoorState::Open }
    );
}

#[test]
fn episode_bridge_reports_losses() {
    assert!(import_report(&[1, 3]).unwrap().lossless);
    assert_eq!(import_report(&[1, 0]).unwrap_err(), "observation state vectors cannot be empty");
    let lossy = export_report(&[2, 0]);
    assert!(!lossy.lossless);
    assert_eq!(lossy.warnings, vec!["one or more observations have no camera references"]);
    assert!(export_report(&[1]).lossless);
}

fn figures() -> ReportFigures {
    ReportFigures {
        skill: "open_door".into(),
        skill_version: "2.6.0-dev".into(),
        robot_profile: "NXR-2".into(),
        seed: 42,
        trials: 3,
        successes: 2,
        success_rate: "66.7".into(),
        safe_aborts: 1,
        safety_violations: 0,
        average_runtime_ms: 12_310,
        sense_recovered: 1,
        sense_failure_trials: 2,
        door_width_error_m: Some("0.012".into()),
        randomized_success: None,
        altered_geometry_success: None,
        safe_behavior: Some("100.0".into()),
    }
}

#[test]
fn report_states_identity_results_and_evidence() {
    let evidence = [
        ev(ValidationLevel::L0SoftwareVerified, ValidationResult::Passed),
        ev(ValidationLevel::L2PhysicsVerified, ValidationResult::NotRun),
    ];
    let text = render_report(&figures(), &evidence);
    assert!(text.starts_with("# NEXUS PROVING GROUND\n\n**Skill:** open_door@2.6.0-dev  \n**Robot profile:** NXR-2  \n**WorldForge seed:** 42  \n"));
    assert!(text.contains("| Trials | 3 |\n| Success | 2 / 3 (66.7%) |\n| Safe aborts | 1 |\n| Safety violations | 0 |\n| Average simulated runtime | 12310 ms |\n"));
    assert!(text.contains("## Validation evidence\n\n- **L0 — SOFTWARE VERIFIED — PASS:** \n- **L2 — PHYSICS VERIFIED — NOT RUN:** \n\n## Benchmarks\n\n"));
    assert!(text.contains("- SenseHopping recovery: 1 / 2 fault trials\n- StructureScan door-width MAE: 0.012 m\n- Active Learning safe behavior: 100.0%\n\n## Physical validation\n\n**NOT YET PERFORMED.**"));
    assert!(!text.contains("randomized-door"));
    assert!(text.ends_with("human/robot interaction.\n"));
    assert!(!text.contains("\\n"));
}

#[test]
fn report_turns_escaped_line_ends_in_summaries_into_breaks() {
    let evidence = [ValidationEvidence {
        level: ValidationLevel::L1VirtualHardwareVerified,
        result: ValidationResult::Passed,
        summary: "first\\nsecond".into(),
    }];
    let text = render_report(&figures(), &evidence);
    assert!(text.contains("- **L1 — VIRTUAL HARDWARE VERIFIED — PASS:** first\nsecond\n"));
}
