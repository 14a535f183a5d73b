use nexus::domain::{Event, Health, RobotLifecycle, SafetyState};
use nexus::durable::{format_event_line, parse_event_line, parse_event_log, recovery_decision, DurableEvent, RecoveryDecision};
use nexus::package::{PackageError, PackageManifest, PackageType};
use nexus::reliable::{
    builtin_contract, finish_skill, start_skill, task_id, ContractError, ResourceArbiter, ResourceError,
};
use nexus::textmap::TextSet;
use nexus::watchdog::{WatchdogKind, WatchdogSet};

#[test]
fn persisted_motion_never_auto_resumes() {
    assert_eq!(recovery_decision(true, true), RecoveryDecision::RequireOperator);
}

#[test]
fn recovery_decisions_cover_every_case() {
    assert_eq!(recovery_decision(true, false), RecoveryDecision::RequireOperator);
    assert_ne!(recovery_decision(false, true), RecoveryDecision::RequireOperator);
}

#[test]
fn event_log_lines_read_back() {
    let event = DurableEvent {
        timestamp_ms: 42,
        category: "task".to_string(),
        subject: "t-1".to_string(),
        message: "started\twith tab".to_string(),
    };
    let line = format_event_line(&event);
    assert_eq!(line, "42\ttask\tt-1\tstarted\twith tab\n");
    let parsed = parse_event_line(line.trim_end_matches('\n')).unwrap();
    assert_eq!(parsed, event);
    let log = format!("{}garbage\n{}", line, format_event_line(&event));
    assert_eq!(parse_event_log(&log), vec![event.clone(), event]);
}

#[test]
fn unsigned_package_is_visible_not_silently_trusted() {
    let manifest = PackageManifest::parse("name: nori\nversion: 2.0.0\ntype: integration\nnexus: >=2.0\n").unwrap();
    let inspected = manifest.inspect();
    assert!(!inspected.signed);
    assert!(!inspected.production_allowed);
}

#[test]
fn package_errors_name_what_is_wrong() {
    assert_eq!(PackageManifest::parse("version: 1\n"), Err(PackageError::MissingField("name")));
    assert_eq!(
        PackageManifest::parse("name: a\nversion: 1\ntype: widget\nnexus: >=2.0\n"),
        Err(PackageError::UnsupportedType("widget".to_string()))
    );
    let ok = PackageManifest::parse("name: a\nversion: 1\ntype: skill\nnexus: >=2.0\nsignature: abc\n").unwrap();
    assert_eq!(ok.package_type, PackageType::Skill);
    let inspected = ok.inspect();
    assert!(inspected.signed);
    assert!(inspected.production_allowed);
    assert_eq!(inspected.content_hash, ok.inspect().content_hash);
}

#[test]
fn resources_cannot_be_controlled_by_two_skills() {
    let mut arbiter = ResourceArbiter::default();
    let mut arm = TextSet::new();
    arm.insert("right_arm".into());
    arbiter.acquire("pick_up", &arm).unwrap();
    assert!(matches!(arbiter.acquire("stow_arm", &arm), Err(ResourceError::Conflict { .. })));
}

#[test]
fn released_resources_can_be_acquired_again() {
    let mut arbiter = ResourceArbiter::new();
    let mut arm = TextSet::new();
    arm.insert("right_arm".into());
    arbiter.acquire("pick_up", &arm).unwrap();
    assert_eq!(arbiter.owner("right_arm"), Some("pick_up"));
    assert_eq!(
        arbiter.acquire("reach", &arm),
        Err(ResourceError::Conflict { resource: "right_arm".to_string(), owner: "pick_up".to_string() })
    );
    arbiter.release("pick_up");
    assert_eq!(arbiter.owner("right_arm"), None);
    assert!(arbiter.acquire("reach", &arm).is_ok());
}

#[test]
fn refused_request_reports_least_held_resource_and_takes_nothing() {
    let mut arbiter = ResourceArbiter::new();
    let mut held = TextSet::new();
    held.insert("right_arm".into());
    held.insert("base".into());
    arbiter.acquire("pick_up", &held).unwrap();
    let mut wanted = TextSet::new();
    wanted.insert("right_arm".into());
    wanted.insert("camera".into());
    wanted.insert("base".into());
    assert_eq!(wanted.len(), 3);
    assert_eq!(
        arbiter.acquire("reach", &wanted),
        Err(ResourceError::Conflict { resource: "base".to_string(), owner: "pick_up".to_string() })
    );
    assert_eq!(arbiter.owner("camera"), None);
    assert_eq!(arbiter.owner("base"), Some("pick_up"));
}

#[test]
fn builtin_contracts_check_robot_state() {
    let contract = builtin_contract("pick_up");
    assert_eq!(contract.min_battery_percent, 25);
    assert!(contract.exclusive_resources.contains("right_arm"));
    assert_eq!(contract.check_state(SafetyState::Safe, RobotLifecycle::Ready, Health::Healthy), Ok(()));
    assert_eq!(
        contract.check_state(SafetyState::Caution, RobotLifecycle::Ready, Health::Healthy),
        Err(ContractError::SafetyState(SafetyState::Caution))
    );
    assert_eq!(
        contract.check_state(SafetyState::Safe, RobotLifecycle::Paused, Health::Healthy),
        Err(ContractError::RobotNotReady(RobotLifecycle::Paused))
    );
    assert_eq!(
        contract.check_state(SafetyState::Safe, RobotLifecycle::Ready, Health::Degraded),
        Err(ContractError::Health(Health::Degraded))
    );
    assert!(!builtin_contract("stop").requires_safe_state);
}

#[test]
fn stale_motion_heartbeat_is_detected() {
    let mut watchdogs = WatchdogSet::with_defaults();
    watchdogs.heartbeat(WatchdogKind::Command, 0);
    assert!(watchdogs.check(501).iter().any(|alert| alert.kind == WatchdogKind::Command));
}

#[test]
fn fresh_heartbeat_raises_no_alert() {
    let mut watchdogs = WatchdogSet::with_defaults();
    watchdogs.heartbeat(WatchdogKind::Command, 100);
    assert!(!watchdogs.check(200).iter().any(|alert| alert.kind == WatchdogKind::Command));
}

#[test]
fn incompatible_nexus_version_is_refused() {
    assert_eq!(
        PackageManifest::parse("name: a\nversion: 1\ntype: model\nnexus: >=3.0\n"),
        Err(PackageError::IncompatibleNexus(">=3.0".to_string()))
    );
}

#[test]
fn skill_runs_start_and_finish_with_their_events() {
    assert_eq!(task_id(0), "task-0");
    assert_eq!(task_id(42), "task-42");
    let (lifecycle, events) = start_skill("task-7", "pick_up");
    assert_eq!(lifecycle, RobotLifecycle::Executing);
    assert_eq!(events, vec![Event::TaskStarted("task-7".into()), Event::SkillStarted("pick_up".into())]);
    let (lifecycle, events) = finish_skill("task-7", "pick_up", RobotLifecycle::Executing, true);
    assert_eq!(lifecycle, RobotLifecycle::Ready);
    assert_eq!(events, vec![Event::TaskCompleted("task-7".into())]);
    let (lifecycle, events) = finish_skill("task-8", "safe_shutdown", RobotLifecycle::Offline, true);
    assert_eq!(lifecycle, RobotLifecycle::Offline);
    assert_eq!(events, vec![Event::TaskCompleted("task-8".into())]);
    let (lifecycle, events) = finish_skill("task-9", "safe_shutdown", RobotLifecycle::Offline, false);
    assert_eq!(lifecycle, RobotLifecycle::Ready);
    assert_eq!(events, vec![Event::SkillFailed("safe_shutdown".into()), Event::TaskFailed("task-9".into())]);
}
