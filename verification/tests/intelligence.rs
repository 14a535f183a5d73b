use nexus::intelligence::{
    AutonomyCapability, AutonomyError, AutonomyPermission, AutonomyPolicy, ComputePlacement, ComputeRequest,
    ComputeRouter, ExecutionGrant, ExperienceMemory, GoalRefusal, GoalRisk, IntelligenceLayer, IntelligenceProfile, MemoryCategory,
    MemoryRetention, PermissionDecision, PlanState,
};

#[test]
fn supervised_manipulation_requests_approval() {
    let mut nil = IntelligenceLayer::supervised();
    let mut plan = nil.compile_goal("Bring the blue container here");
    assert!(nil.require_approval(&mut plan).unwrap().is_some());
}

#[test]
fn autonomous_policy_never_allows_leaving_zone() {
    let policy = AutonomyPolicy::for_profile(IntelligenceProfile::Autonomous);
    assert_eq!(policy.permission(AutonomyPermission::LeaveZone), PermissionDecision::Denied);
}

#[test]
fn compute_router_keeps_private_work_local() {
    let router = ComputeRouter { cloud_allowed: true, cost_limit_cents: 200 };
    assert_eq!(
        router.select(&ComputeRequest {
            requires_private_data: true,
            network_available: true,
            latency_sensitive: false,
            estimated_cost_cents: 100,
        }),
        ComputePlacement::OnRobot
    );
}

#[test]
fn compute_router_uses_cloud_only_when_allowed_and_affordable() {
    let request = ComputeRequest {
        requires_private_data: false,
        network_available: true,
        latency_sensitive: false,
        estimated_cost_cents: 150,
    };
    assert_eq!(ComputeRouter { cloud_allowed: true, cost_limit_cents: 200 }.select(&request), ComputePlacement::Cloud);
    assert_eq!(ComputeRouter { cloud_allowed: true, cost_limit_cents: 100 }.select(&request), ComputePlacement::EdgeServer);
    assert_eq!(ComputeRouter::default().select(&request), ComputePlacement::EdgeServer);
    let offline = ComputeRequest { network_available: false, ..request };
    assert_eq!(ComputeRouter { cloud_allowed: true, cost_limit_cents: 200 }.select(&offline), ComputePlacement::OnRobot);
}

#[test]
fn every_shipped_profile_keeps_learning_in_simulation() {
    for profile in [
        IntelligenceProfile::Manual,
        IntelligenceProfile::Assisted,
        IntelligenceProfile::Supervised,
        IntelligenceProfile::Autonomous,
        IntelligenceProfile::Custom,
    ] {
        let policy = AutonomyPolicy::for_profile(profile);
        assert_eq!(policy.grant(AutonomyCapability::Learning), ExecutionGrant::SimulationOnly);
        assert_eq!(policy.permission(AutonomyPermission::LeaveZone), PermissionDecision::Denied);
        assert!(policy.allowed_zones.contains("warehouse"));
    }
    let manual = AutonomyPolicy::for_profile(IntelligenceProfile::Manual);
    assert_eq!(manual.speed_scale_percent, 50);
    assert_eq!(manual.grant(AutonomyCapability::Navigation), ExecutionGrant::Manual);
    let custom = AutonomyPolicy::for_profile(IntelligenceProfile::Custom);
    assert_eq!(custom.grant(AutonomyCapability::Perception), ExecutionGrant::Denied);
}

#[test]
fn operating_envelope_sorts_activities() {
    let supervised = AutonomyPolicy::for_profile(IntelligenceProfile::Supervised).operating_envelope();
    assert!(supervised.allowed.is_empty());
    assert_eq!(
        supervised.approval_required,
        vec!["Navigate designated zones", "Use permitted sensors", "Explore allowed zones", "Move objects", "Open doors"]
    );
    assert_eq!(supervised.prohibited, vec!["Leave allowed zones"]);
    let autonomous = AutonomyPolicy::for_profile(IntelligenceProfile::Autonomous).operating_envelope();
    assert_eq!(
        autonomous.allowed,
        vec!["Navigate designated zones", "Use permitted sensors", "Explore allowed zones", "Move objects"]
    );
    assert_eq!(autonomous.approval_required, vec!["Open doors"]);
}

#[test]
fn compiled_goals_are_numbered_and_classified() {
    let mut nil = IntelligenceLayer::new(IntelligenceProfile::Supervised);
    let fetch = nil.compile_goal("Find the BLUE container");
    assert_eq!(fetch.goal.id, "goal-1");
    assert_eq!(fetch.steps.len(), 5);
    assert_eq!(fetch.risk, GoalRisk::Medium);
    assert_eq!(fetch.state, PlanState::Preview);
    let inspect = nil.compile_goal("Explore the lab");
    assert_eq!(inspect.goal.id, "goal-2");
    assert_eq!(inspect.steps.len(), 3);
    assert_eq!(inspect.risk, GoalRisk::Low);
    let other = nil.compile_goal("Say hello");
    assert_eq!(other.steps[0].skill, "self_check");
    assert_eq!(other.expected_duration_s, 120);
    assert!(nil.plan("goal-3").is_some());
    assert!(nil.plan("goal-4").is_none());
}

#[test]
fn approval_is_consumed_once_and_approves_its_plan() {
    let mut nil = IntelligenceLayer::supervised();
    let mut plan = nil.compile_goal("Bring the blue container here");
    let request = nil.require_approval(&mut plan).unwrap().unwrap();
    assert_eq!(request.id, "approval-goal-1");
    assert_eq!(request.goal_id, "goal-1");
    assert_eq!(plan.state, PlanState::AwaitingApproval);
    assert_eq!(nil.plan("goal-1").unwrap().state, PlanState::AwaitingApproval);
    let approved = nil.approve(&request.id).unwrap();
    assert_eq!(approved.state, PlanState::Approved);
    assert_eq!(nil.plan("goal-1").unwrap().state, PlanState::Approved);
    assert_eq!(nil.approve(&request.id).unwrap_err(), AutonomyError::InvalidApproval("approval-goal-1".to_string()));
}

#[test]
fn autonomous_inspection_needs_no_approval() {
    let mut nil = IntelligenceLayer::new(IntelligenceProfile::Autonomous);
    let mut plan = nil.compile_goal("Inspect the workspace");
    assert!(nil.require_approval(&mut plan).unwrap().is_none());
    assert_eq!(plan.state, PlanState::Approved);
}

#[test]
fn denied_capabilities_refuse_the_plan() {
    let mut nil = IntelligenceLayer::new(IntelligenceProfile::Custom);
    let mut plan = nil.compile_goal("status");
    assert_eq!(
        nil.require_approval(&mut plan).unwrap_err(),
        AutonomyError::Denied("self_check is denied by autonomy policy".to_string())
    );
    assert_eq!(plan.state, PlanState::Preview);
    let mut nil = IntelligenceLayer::new(IntelligenceProfile::Autonomous);
    nil.policy.permissions = vec![(AutonomyPermission::MoveObjects, PermissionDecision::Denied)];
    let mut plan = nil.compile_goal("bring it");
    assert_eq!(
        nil.require_approval(&mut plan).unwrap_err(),
        AutonomyError::Denied("permission denied for pick_up".to_string())
    );
}

#[test]
fn memory_keeps_records_but_not_operator_data() {
    let mut memory = ExperienceMemory::default();
    memory.remember(MemoryCategory::Operator, "alice", "prefers tea", 90, 1);
    assert!(memory.records().is_empty());
    memory.remember(MemoryCategory::Task, "goal-1", "completed", 100, 2);
    memory.remember(MemoryCategory::World, "warehouse", "refreshed", 82, 3);
    assert_eq!(memory.records().len(), 2);
    assert_eq!(memory.records()[0].id, "mem-1");
    assert_eq!(memory.records()[1].id, "mem-2");
    assert_eq!(memory.records()[1].retention, MemoryRetention::Persistent);
    assert!(memory.forget("mem-1"));
    assert!(!memory.forget("mem-1"));
    assert_eq!(memory.records().len(), 1);
    assert_eq!(memory.records()[0].subject, "warehouse");
}

#[test]
fn goals_run_only_when_permitted_and_approved() {
    let mut nil = IntelligenceLayer::supervised();
    match nil.authorize_goal("Bring the blue container here", false) {
        Err(GoalRefusal::ApprovalRequired(request)) => {
            assert_eq!(request.goal_id, "goal-1");
            assert_eq!(request.steps[0], "inspect_object");
        }
        _ => panic!("approval should be required"),
    }
    let (plan, approval) = nil.authorize_goal("Bring the blue container here", true).unwrap();
    assert_eq!(plan.goal.id, "goal-2");
    assert_eq!(plan.state, PlanState::Approved);
    assert_eq!(approval.unwrap().id, "approval-goal-2");
    assert!(nil.approve("approval-goal-2").is_err());
    let mut autonomous = IntelligenceLayer::new(IntelligenceProfile::Autonomous);
    let (plan, approval) = autonomous.authorize_goal("inspect the area", false).unwrap();
    assert!(approval.is_none());
    assert_eq!(plan.state, PlanState::Approved);
    let mut custom = IntelligenceLayer::new(IntelligenceProfile::Custom);
    assert!(matches!(custom.authorize_goal("hello", true), Err(GoalRefusal::Policy(AutonomyError::Denied(_)))));
}

#[test]
fn approving_one_plan_leaves_the_others_alone() {
    let mut nil = IntelligenceLayer::supervised();
    let mut first = nil.compile_goal("bring the cup");
    let mut second = nil.compile_goal("bring the plate");
    let first_request = nil.require_approval(&mut first).unwrap().unwrap();
    let second_request = nil.require_approval(&mut second).unwrap().unwrap();
    nil.approve(&first_request.id).unwrap();
    assert_eq!(nil.plan("goal-1").unwrap().state, PlanState::Approved);
    assert_eq!(nil.plan("goal-2").unwrap().state, PlanState::AwaitingApproval);
    assert!(nil.approve(&second_request.id).is_ok());
}
