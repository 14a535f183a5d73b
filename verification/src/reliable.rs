//! Reliability contracts and resource arbitration for skill execution.
use vstd::prelude::*;
use crate::domain::{Event, Health, RobotLifecycle, SafetyState};
use crate::text::{clone_texts, decimal, owned, push_decimal, push_str, text_eq, texts};
use crate::textmap::{strictly_sorted, text_lt, TextMap, TextSet};

verus! {

#[derive(Clone, Copy, Debug, PartialEq, Eq, Structural)]
pub enum SkillLifecycle {
    Draft,
    UnitTested,
    SimulationValidated,
    HilValidated,
    HardwareValidated,
    Production,
    Deprecated,
}

#[derive(Clone, Copy, Debug, PartialEq, Eq, Structural)]
pub enum CancellationPolicy {
    Immediate,
    SafePoint,
    NotCancellable,
}

#[derive(Clone, Copy, Debug, PartialEq, Eq, Structural)]
pub enum Determinism {
    Deterministic,
    Probabilistic,
    ModelDriven,
}

/// The declared reliability contract of a skill. Battery thresholds are whole percent.
#[derive(Debug)]
pub struct SkillContract {
    pub lifecycle: SkillLifecycle,
    pub cancellation: CancellationPolicy,
    pub determinism: Determinism,
    pub max_runtime_s: u64,
    pub min_battery_percent: u8,
    pub requires_safe_state: bool,
    pub exclusive_resources: TextSet,
    pub shared_resources: TextSet,
    pub preconditions: Vec<String>,
    pub postconditions: Vec<String>,
    pub recoverable_failures: Vec<String>,
    pub non_recoverable_failures: Vec<String>,
}

/// Whether two contracts declare the same thing.
pub open spec fn same_contract(a: SkillContract, b: SkillContract) -> bool {
    &&& a.lifecycle == b.lifecycle
    &&& a.cancellation == b.cancellation
    &&& a.determinism == b.determinism
    &&& a.max_runtime_s == b.max_runtime_s
    &&& a.min_battery_percent == b.min_battery_percent
    &&& a.requires_safe_state == b.requires_safe_state
    &&& a.exclusive_resources.as_set() == b.exclusive_resources.as_set()
    &&& a.shared_resources.as_set() == b.shared_resources.as_set()
    &&& texts(a.preconditions@) == texts(b.preconditions@)
    &&& texts(a.postconditions@) == texts(b.postconditions@)
    &&& texts(a.recoverable_failures@) == texts(b.recoverable_failures@)
    &&& texts(a.non_recoverable_failures@) == texts(b.non_recoverable_failures@)
}

impl Clone for SkillContract {
    fn clone(&self) -> (r: Self)
        ensures
            same_contract(r, *self),
    {
        SkillContract {
            lifecycle: self.lifecycle,
            cancellation: self.cancellation,
            determinism: self.determinism,
            max_runtime_s: self.max_runtime_s,
            min_battery_percent: self.min_battery_percent,
            requires_safe_state: self.requires_safe_state,
            exclusive_resources: self.exclusive_resources.clone(),
            shared_resources: self.shared_resources.clone(),
            preconditions: clone_texts(&self.preconditions),
            postconditions: clone_texts(&self.postconditions),
            recoverable_failures: clone_texts(&self.recoverable_failures),
            non_recoverable_failures: clone_texts(&self.non_recoverable_failures),
        }
    }
}

#[derive(Clone, Copy, Debug, PartialEq, Eq, Structural)]
pub enum ContractError {
    BatteryLow { available: u8, minimum: u8 },
    SafetyState(SafetyState),
    RobotNotReady(RobotLifecycle),
    Health(Health),
}

/// The checks of a contract that follow the battery check, in order: safe state
/// (when required), a ready robot, and a healthy robot.
pub open spec fn state_check(c: SkillContract, safety: SafetyState, lifecycle: RobotLifecycle, health: Health) -> Result<(), ContractError> {
    if c.requires_safe_state && safety != SafetyState::Safe {
        Err(ContractError::SafetyState(safety))
    } else if lifecycle != RobotLifecycle::Ready {
        Err(ContractError::RobotNotReady(lifecycle))
    } else if health != Health::Healthy {
        Err(ContractError::Health(health))
    } else {
        Ok(())
    }
}

/// A contract admits only a ready, healthy robot: every health other than Healthy
/// (degraded, faulted, offline or in maintenance) is refused with that health once the
/// safety state and lifecycle have passed, and a robot that is not ready never passes.
pub proof fn law_only_healthy_ready_robots_pass(
    c: SkillContract,
    safety: SafetyState,
    lifecycle: RobotLifecycle,
    health: Health,
)
    ensures
        state_check(c, safety, lifecycle, health) is Ok ==> health == Health::Healthy && lifecycle
            == RobotLifecycle::Ready && (c.requires_safe_state ==> safety == SafetyState::Safe),
        safety == SafetyState::Safe && lifecycle == RobotLifecycle::Ready && health != Health::Healthy
            ==> state_check(c, safety, lifecycle, health) == Err::<(), ContractError>(ContractError::Health(health)),
        safety == SafetyState::Safe && lifecycle == RobotLifecycle::Ready && health == Health::Healthy
            ==> state_check(c, safety, lifecycle, health) is Ok,
{
}

impl SkillContract {
    /// The robot-state checks of the contract, after the battery check.
    pub fn check_state(&self, safety: SafetyState, lifecycle: RobotLifecycle, health: Health) -> (r: Result<(), ContractError>)
        ensures
            r == state_check(*self, safety, lifecycle, health),
            r is Ok ==> health == Health::Healthy && lifecycle == RobotLifecycle::Ready,
            safety == SafetyState::Safe && lifecycle == RobotLifecycle::Ready && health != Health::Healthy
                ==> r == Err::<(), ContractError>(ContractError::Health(health)),
    {
        if self.requires_safe_state && safety != SafetyState::Safe {
            return Err(ContractError::SafetyState(safety));
        }
        if lifecycle != RobotLifecycle::Ready {
            return Err(ContractError::RobotNotReady(lifecycle));
        }
        if health != Health::Healthy {
            return Err(ContractError::Health(health));
        }
        Ok(())
    }
}

/// Which family a built-in skill belongs to: 0 emergency, 1 right-arm manipulation,
/// 2 base motion, 3 front-camera perception, 4 anything else.
pub open spec fn skill_family(name: Seq<char>) -> int {
    if name == "stop"@ || name == "safe_shutdown"@ {
        0
    } else if name == "pick_up"@ || name == "place"@ || name == "place_object"@ || name == "reach"@
        || name == "open_gripper"@ || name == "close_gripper"@ || name == "handoff"@ || name == "stow_arm"@ {
        1
    } else if name == "move_forward"@ || name == "move_backward"@ || name == "walk_to"@ || name == "navigate_to"@
        || name == "return_home"@ || name == "dock"@ || name == "rotate"@ {
        2
    } else if name == "scan_area"@ || name == "scan_room"@ || name == "find_object"@ || name == "inspect_object"@
        || name == "track_object"@ || name == "look_at"@ {
        3
    } else {
        4
    }
}

pub open spec fn family_resources(f: int) -> Set<Seq<char>> {
    if f == 0 {
        set!["base"@, "left_arm"@, "right_arm"@]
    } else if f == 1 {
        set!["right_arm"@]
    } else if f == 2 {
        set!["base"@]
    } else if f == 3 {
        set!["front_camera"@]
    } else {
        Set::empty()
    }
}

pub open spec fn family_battery(f: int) -> u8 {
    if f == 0 { 0 } else if f == 1 { 25 } else if f == 2 { 15 } else if f == 3 { 10 } else { 5 }
}

pub open spec fn family_cancellation(f: int) -> CancellationPolicy {
    if f == 1 || f == 2 { CancellationPolicy::SafePoint } else { CancellationPolicy::Immediate }
}

fn skill_family_exec(name: &str) -> (f: u8)
    ensures
        f == skill_family(name@),
{
    proof {
        reveal_strlit("stop");
        reveal_strlit("safe_shutdown");
        reveal_strlit("pick_up");
        reveal_strlit("place");
        reveal_strlit("place_object");
        reveal_strlit("reach");
        reveal_strlit("open_gripper");
        reveal_strlit("close_gripper");
        reveal_strlit("handoff");
        reveal_strlit("stow_arm");
        reveal_strlit("move_forward");
        reveal_strlit("move_backward");
        reveal_strlit("walk_to");
        reveal_strlit("navigate_to");
        reveal_strlit("return_home");
        reveal_strlit("dock");
        reveal_strlit("rotate");
        reveal_strlit("scan_area");
        reveal_strlit("scan_room");
        reveal_strlit("find_object");
        reveal_strlit("inspect_object");
        reveal_strlit("track_object");
        reveal_strlit("look_at");
    }
    if text_eq(name, "stop") || text_eq(name, "safe_shutdown") {
        0
    } else if text_eq(name, "pick_up") || text_eq(name, "place") || text_eq(name, "place_object") || text_eq(name, "reach")
        || text_eq(name, "open_gripper") || text_eq(name, "close_gripper") || text_eq(name, "handoff") || text_eq(name, "stow_arm") {
        1
    } else if text_eq(name, "move_forward") || text_eq(name, "move_backward") || text_eq(name, "walk_to")
        || text_eq(name, "navigate_to") || text_eq(name, "return_home") || text_eq(name, "dock") || text_eq(name, "rotate") {
        2
    } else if text_eq(name, "scan_area") || text_eq(name, "scan_room") || text_eq(name, "find_object")
        || text_eq(name, "inspect_object") || text_eq(name, "track_object") || text_eq(name, "look_at") {
        3
    } else {
        4
    }
}

fn push_text(v: &mut Vec<String>, s: &str)
    ensures
        texts(final(v)@) == texts(old(v)@).push(s@),
{
    v.push(owned(s));
    proof {
        assert(texts(v@) =~= texts(old(v)@).push(s@));
    }
}

/// Whether `c` is the contract shipped for the built-in skill `name`.
pub open spec fn is_builtin_contract(c: SkillContract, name: Seq<char>) -> bool {
    &&& c.lifecycle == SkillLifecycle::SimulationValidated
    &&& c.cancellation == family_cancellation(skill_family(name))
    &&& c.determinism == Determinism::Deterministic
    &&& c.max_runtime_s == 180
    &&& c.min_battery_percent == family_battery(skill_family(name))
    &&& c.requires_safe_state == (name != "stop"@)
    &&& c.exclusive_resources.as_set() == family_resources(skill_family(name))
    &&& c.shared_resources.as_set() == Set::<Seq<char>>::empty()
    &&& texts(c.preconditions@) == seq![
        "robot.state=READY"@,
        "battery.percent>="@ + decimal(family_battery(skill_family(name)) as nat),
        "health=HEALTHY"@
    ]
    &&& texts(c.postconditions@) == seq!["runtime event recorded"@]
    &&& texts(c.recoverable_failures@) == seq!["adapter timeout"@, "target moved"@]
    &&& texts(c.non_recoverable_failures@) == seq!["emergency stop"@, "hardware fault"@]
}

/// The contract of a built-in skill: its family decides the exclusive resources, the
/// minimum battery and the cancellation policy; every skill but `stop` requires a
/// safe state.
pub fn builtin_contract(name: &str) -> (c: SkillContract)
    ensures
        c.lifecycle == SkillLifecycle::SimulationValidated,
        c.cancellation == family_cancellation(skill_family(name@)),
        c.determinism == Determinism::Deterministic,
        c.max_runtime_s == 180,
        c.min_battery_percent == family_battery(skill_family(name@)),
        c.requires_safe_state == (name@ != "stop"@),
        c.exclusive_resources.as_set() == family_resources(skill_family(name@)),
        c.shared_resources.as_set() == Set::<Seq<char>>::empty(),
        texts(c.preconditions@) == seq![
            "robot.state=READY"@,
            "battery.percent>="@ + decimal(family_battery(skill_family(name@)) as nat),
            "health=HEALTHY"@
        ],
        texts(c.postconditions@) == seq!["runtime event recorded"@],
        texts(c.recoverable_failures@) == seq!["adapter timeout"@, "target moved"@],
        texts(c.non_recoverable_failures@) == seq!["emergency stop"@, "hardware fault"@],
{
    let family = skill_family_exec(name);
    let mut resources = TextSet::new();
    let (battery, cancellation): (u8, CancellationPolicy) = if family == 0 {
        resources.insert(owned("base"));
        resources.insert(owned("left_arm"));
        resources.insert(owned("right_arm"));
        (0, CancellationPolicy::Immediate)
    } else if family == 1 {
        resources.insert(owned("right_arm"));
        (25, CancellationPolicy::SafePoint)
    } else if family == 2 {
        resources.insert(owned("base"));
        (15, CancellationPolicy::SafePoint)
    } else if family == 3 {
        resources.insert(owned("front_camera"));
        (10, CancellationPolicy::Immediate)
    } else {
        (5, CancellationPolicy::Immediate)
    };
    proof {
        assert(resources.as_set() =~= family_resources(skill_family(name@)));
    }
    let mut preconditions: Vec<String> = Vec::new();
    push_text(&mut preconditions, "robot.state=READY");
    let mut battery_line = String::new();
    push_str(&mut battery_line, "battery.percent>=");
    push_decimal(&mut battery_line, battery as u128);
    let ghost before = texts(preconditions@);
    let ghost bl = battery_line@;
    preconditions.push(battery_line);
    proof {
        assert(texts(preconditions@) =~= before.push(bl));
        assert(battery == family_battery(skill_family(name@)));
    }
    push_text(&mut preconditions, "health=HEALTHY");
    let mut postconditions: Vec<String> = Vec::new();
    push_text(&mut postconditions, "runtime event recorded");
    let mut recoverable_failures: Vec<String> = Vec::new();
    push_text(&mut recoverable_failures, "adapter timeout");
    push_text(&mut recoverable_failures, "target moved");
    let mut non_recoverable_failures: Vec<String> = Vec::new();
    push_text(&mut non_recoverable_failures, "emergency stop");
    push_text(&mut non_recoverable_failures, "hardware fault");
    proof {
        assert(texts(preconditions@) =~= seq![
            "robot.state=READY"@,
            "battery.percent>="@ + decimal(family_battery(skill_family(name@)) as nat),
            "health=HEALTHY"@
        ]);
        assert(texts(postconditions@) =~= seq!["runtime event recorded"@]);
        assert(texts(recoverable_failures@) =~= seq!["adapter timeout"@, "target moved"@]);
        assert(texts(non_recoverable_failures@) =~= seq!["emergency stop"@, "hardware fault"@]);
    }
    let requires_safe_state = !text_eq(name, "stop");
    SkillContract {
        lifecycle: SkillLifecycle::SimulationValidated,
        cancellation,
        determinism: Determinism::Deterministic,
        max_runtime_s: 180,
        min_battery_percent: battery,
        requires_safe_state,
        exclusive_resources: resources,
        shared_resources: TextSet::new(),
        preconditions,
        postconditions,
        recoverable_failures,
        non_recoverable_failures,
    }
}

/// Grants resources to skills so that no resource is controlled by two skills.
#[derive(Debug)]
pub struct ResourceArbiter {
    owners: TextMap<String>,
}

#[derive(Clone, Debug, PartialEq, Eq)]
pub enum ResourceError {
    Conflict { resource: String, owner: String },
}

impl View for ResourceArbiter {
    type V = Map<Seq<char>, Seq<char>>;

    /// Which skill owns each held resource.
    closed spec fn view(&self) -> Map<Seq<char>, Seq<char>> {
        Map::new(|k: Seq<char>| self.owners.lookup(k) is Some, |k: Seq<char>| self.owners.lookup(k)->0@)
    }
}

/// Whether resource `r` is held by a skill other than `skill`.
pub open spec fn held_by_other(owners: Map<Seq<char>, Seq<char>>, skill: Seq<char>, r: Seq<char>) -> bool {
    owners.contains_key(r) && owners[r] != skill
}

/// The first position at or after `i` whose resource is held by another skill.
pub open spec fn first_conflict(owners: Map<Seq<char>, Seq<char>>, skill: Seq<char>, items: Seq<Seq<char>>, i: int) -> Option<int>
    decreases items.len() - i,
{
    if i < 0 || i >= items.len() {
        None
    } else if held_by_other(owners, skill, items[i]) {
        Some(i)
    } else {
        first_conflict(owners, skill, items, i + 1)
    }
}

/// The ownership after `skill` takes every resource in `items`.
pub open spec fn granted(owners: Map<Seq<char>, Seq<char>>, skill: Seq<char>, items: Set<Seq<char>>) -> Map<Seq<char>, Seq<char>> {
    Map::new(
        |k: Seq<char>| owners.contains_key(k) || items.contains(k),
        |k: Seq<char>| if items.contains(k) { skill } else { owners[k] },
    )
}

/// The outcome of a request: the first resource (in the set's order) held by another
/// skill, with its owner; otherwise the new ownership.
pub open spec fn acquire_spec(owners: Map<Seq<char>, Seq<char>>, skill: Seq<char>, items: Seq<Seq<char>>) -> Result<Map<Seq<char>, Seq<char>>, (Seq<char>, Seq<char>)> {
    match first_conflict(owners, skill, items, 0) {
        Some(i) => Err((items[i], owners[items[i]])),
        None => Ok(granted(owners, skill, items.to_set())),
    }
}

proof fn lemma_no_conflict(owners: Map<Seq<char>, Seq<char>>, skill: Seq<char>, items: Seq<Seq<char>>, i: int)
    requires
        0 <= i <= items.len(),
        forall|j: int| i <= j < items.len() ==> !held_by_other(owners, skill, #[trigger] items[j]),
    ensures
        first_conflict(owners, skill, items, i) is None,
    decreases items.len() - i,
{
    if i < items.len() {
        lemma_no_conflict(owners, skill, items, i + 1);
    }
}

proof fn lemma_conflict_at(owners: Map<Seq<char>, Seq<char>>, skill: Seq<char>, items: Seq<Seq<char>>, i: int, k: int)
    requires
        0 <= i <= k < items.len(),
        forall|j: int| i <= j < k ==> !held_by_other(owners, skill, #[trigger] items[j]),
        held_by_other(owners, skill, items[k]),
    ensures
        first_conflict(owners, skill, items, i) == Some(k),
    decreases k - i,
{
    if i < k {
        lemma_conflict_at(owners, skill, items, i + 1, k);
    }
}

proof fn lemma_first_conflict(owners: Map<Seq<char>, Seq<char>>, skill: Seq<char>, items: Seq<Seq<char>>, k: int)
    requires
        0 <= k,
    ensures
        match first_conflict(owners, skill, items, k) {
            Some(i) => k <= i < items.len() && held_by_other(owners, skill, items[i])
                && forall|j: int| k <= j < i ==> !held_by_other(owners, skill, #[trigger] items[j]),
            None => forall|j: int| k <= j < items.len() ==> !held_by_other(owners, skill, #[trigger] items[j]),
        },
    decreases items.len() - k,
{
    if k < items.len() && !held_by_other(owners, skill, items[k]) {
        lemma_first_conflict(owners, skill, items, k + 1);
    }
}

/// When a request over a set of resources is refused, the resource reported is the
/// least held resource of the set in text order: every other member held by
/// another skill comes after it.
pub proof fn law_reported_conflict_is_least(owners: Map<Seq<char>, Seq<char>>, skill: Seq<char>, items: Seq<Seq<char>>)
    requires
        strictly_sorted(items),
        acquire_spec(owners, skill, items) is Err,
    ensures
        ({
            let res = acquire_spec(owners, skill, items)->Err_0.0;
            &&& items.contains(res)
            &&& held_by_other(owners, skill, res)
            &&& forall|x: Seq<char>| items.contains(x) && held_by_other(owners, skill, x) && x != res
                ==> text_lt(res, x)
        }),
{
    lemma_first_conflict(owners, skill, items, 0);
    let i = first_conflict(owners, skill, items, 0)->0;
    assert forall|x: Seq<char>| items.contains(x) && held_by_other(owners, skill, x) && x != items[i]
        implies text_lt(items[i], x) by {
        let j = choose|j: int| 0 <= j < items.len() && items[j] == x;
        assert(items[j] == x);
        if j < i {
            assert(!held_by_other(owners, skill, items[j]));
        }
    }
}

impl ResourceArbiter {
    /// An arbiter with no resource held.
    pub fn new() -> (a: Self)
        ensures
            a@ == Map::<Seq<char>, Seq<char>>::empty(),
    {
        let a = ResourceArbiter { owners: TextMap::new() };
        proof {
            assert(a@ =~= Map::<Seq<char>, Seq<char>>::empty());
        }
        a
    }

    /// Gives `skill` every resource in `resources`, unless one of them is held by another
    /// skill; then nothing changes and the first such resource is reported.
    pub fn acquire(&mut self, skill: &str, resources: &TextSet) -> (r: Result<(), ResourceError>)
        ensures
            match acquire_spec(old(self)@, skill@, resources.items()) {
                Ok(m) => r is Ok && final(self)@ == m,
                Err((res, own)) => final(self)@ == old(self)@ && (r matches Err(ResourceError::Conflict { resource, owner })
                    && resource@ == res && owner@ == own),
            },
            strictly_sorted(resources.items()),
    {
        let ghost items = resources.items();
        let n = resources.len();
        let mut i: usize = 0;
        while i < n
            invariant
                n == items.len(),
                items == resources.items(),
                strictly_sorted(items),
                i <= n,
                forall|j: int| 0 <= j < i ==> !held_by_other(self@, skill@, #[trigger] items[j]),
            decreases n - i,
        {
            let res = resources.item_at(i);
            match self.owners.get(res.as_str()) {
                Some(owner) => {
                    if !text_eq(owner.as_str(), skill) {
                        proof {
                            lemma_conflict_at(self@, skill@, items, 0, i as int);
                        }
                        return Err(ResourceError::Conflict { resource: res.clone(), owner: owner.clone() });
                    }
                },
                None => {},
            }
            i = i + 1;
        }
        proof {
            lemma_no_conflict(self@, skill@, items, 0);
        }
        let ghost start = self@;
        let mut j: usize = 0;
        while j < n
            invariant
                n == items.len(),
                items == resources.items(),
                strictly_sorted(items),
                j <= n,
                self@ == granted(start, skill@, items.subrange(0, j as int).to_set()),
            decreases n - j,
        {
            let res = resources.item_at(j);
            let ghost prev = self@;
            let value = owned(skill);
            self.owners.insert(res.clone(), value);
            proof {
                assert(self.owners.lookup(res@) == Some(value));
                assert(self@ =~= prev.insert(res@, skill@));
            }
            j = j + 1;
            proof {
                lemma_prefix_set(items, j - 1);
                assert(self@ =~= granted(start, skill@, items.subrange(0, j as int).to_set()));
            }
        }
        proof {
            assert(items.subrange(0, n as int) =~= items);
        }
        Ok(())
    }

    /// Releases every resource held by `skill`.
    pub fn release(&mut self, skill: &str)
        ensures
            final(self)@ == Map::new(
                |k: Seq<char>| old(self)@.contains_key(k) && old(self)@[k] != skill@,
                |k: Seq<char>| old(self)@[k],
            ),
    {
        let ghost start = self@;
        let mut kept: TextMap<String> = TextMap::new();
        let n = self.owners.len();
        let mut i: usize = 0;
        while i < n
            invariant
                n == self.owners.keys().len(),
                i <= n,
                start == self@,
                forall|k: Seq<char>| #[trigger] kept.lookup(k) matches Some(v) ==> v@ == start[k],
                forall|k: Seq<char>| #[trigger] kept.lookup(k) is Some <==> (start.contains_key(k) && start[k] != skill@
                    && exists|j: int| 0 <= j < i && self.owners.keys()[j] == k),
            decreases n - i,
        {
            let (k, v) = self.owners.entry_at(i);
            if !text_eq(v.as_str(), skill) {
                kept.insert(k.clone(), v.clone());
            }
            proof {
                assert forall|q: Seq<char>| #[trigger] kept.lookup(q) is Some <==> (start.contains_key(q) && start[q] != skill@
                    && exists|j: int| 0 <= j < i + 1 && self.owners.keys()[j] == q) by {
                    if q == self.owners.keys()[i as int] {
                        assert(self.owners.keys()[i as int] == q);
                    }
                }
            }
            i = i + 1;
        }
        proof {
            assert forall|q: Seq<char>| start.contains_key(q) implies exists|j: int| 0 <= j < n && #[trigger] self.owners.keys()[j] == q by {
                assert(self.owners.keys().contains(q));
                let j = self.owners.keys().index_of(q);
                assert(self.owners.keys()[j] == q);
            }
        }
        self.owners = kept;
        proof {
            assert(self@ =~= Map::new(
                |k: Seq<char>| start.contains_key(k) && start[k] != skill@,
                |k: Seq<char>| start[k],
            ));
        }
    }

    /// The skill holding `resource`.
    pub fn owner(&self, resource: &str) -> (r: Option<&str>)
        ensures
            match r {
                Some(o) => self@.contains_key(resource@) && self@[resource@] == o@,
                None => !self@.contains_key(resource@),
            },
    {
        match self.owners.get(resource) {
            Some(o) => Some(o.as_str()),
            None => None,
        }
    }
}

impl Default for ResourceArbiter {
    /// An arbiter with no resource held.
    fn default() -> (a: Self)
        ensures
            a@ == Map::<Seq<char>, Seq<char>>::empty(),
    {
        Self::new()
    }
}

/// Once a skill has acquired a resource, a different skill cannot acquire it:
/// its request is refused, and nothing changes.
pub proof fn law_no_two_skills_share_a_resource(
    owners: Map<Seq<char>, Seq<char>>,
    a: Seq<char>,
    b: Seq<char>,
    ra: Seq<Seq<char>>,
    rb: Seq<Seq<char>>,
    r: Seq<char>,
)
    requires
        acquire_spec(owners, a, ra) is Ok,
        ra.contains(r),
        rb.contains(r),
        a != b,
    ensures
        acquire_spec(acquire_spec(owners, a, ra)->Ok_0, b, rb) is Err,
{
    let m = acquire_spec(owners, a, ra)->Ok_0;
    assert(m.contains_key(r) && m[r] == a) by {
        assert(ra.to_set().contains(r));
    }
    let k = rb.index_of(r);
    assert(0 <= k < rb.len() && rb[k] == r);
    if first_conflict(m, b, rb, 0) is None {
        lemma_first_conflict_none_suffix(m, b, rb, k);
        assert(held_by_other(m, b, rb[k]));
        assert(first_conflict(m, b, rb, k) == Some(k));
    }
}

proof fn lemma_prefix_set(items: Seq<Seq<char>>, j: int)
    requires
        0 <= j < items.len(),
    ensures
        items.subrange(0, j + 1).to_set() == items.subrange(0, j).to_set().insert(items[j]),
{
    let a = items.subrange(0, j + 1);
    let b = items.subrange(0, j);
    assert forall|q: Seq<char>| a.to_set().contains(q) <==> b.to_set().insert(items[j]).contains(q) by {
        if a.contains(q) {
            let t = a.index_of(q);
            if t < j {
                assert(b[t] == q);
            }
        }
        if b.contains(q) {
            let t = b.index_of(q);
            assert(a[t] == q);
        }
        if q == items[j] {
            assert(a[j] == q);
        }
    }
    assert(a.to_set() =~= b.to_set().insert(items[j]));
}

proof fn lemma_first_conflict_none_suffix(owners: Map<Seq<char>, Seq<char>>, skill: Seq<char>, items: Seq<Seq<char>>, i: int)
    requires
        0 <= i,
        first_conflict(owners, skill, items, 0) is None,
    ensures
        first_conflict(owners, skill, items, i) is None,
    decreases i,
{
    if i > 0 {
        lemma_first_conflict_none_suffix(owners, skill, items, i - 1);
    }
}


/// The identifier of the task that runs a skill: `task-` and the sequence number.
pub fn task_id(sequence: u64) -> (s: String)
    ensures
        s@ == "task-"@ + decimal(sequence as nat),
{
    let mut s = String::new();
    push_str(&mut s, "task-");
    push_decimal(&mut s, sequence as u128);
    s
}

/// Starting a skill: the robot is executing, and the task start and then the skill
/// start are recorded.
pub fn start_skill(task: &str, skill: &str) -> (r: (RobotLifecycle, Vec<Event>))
    ensures
        r.0 == RobotLifecycle::Executing,
        r.1@.len() == 2,
        r.1@[0] matches Event::TaskStarted(t) && t@ == task@,
        r.1@[1] matches Event::SkillStarted(k) && k@ == skill@,
{
    let mut events: Vec<Event> = Vec::new();
    events.push(Event::TaskStarted(owned(task)));
    events.push(Event::SkillStarted(owned(skill)));
    (RobotLifecycle::Executing, events)
}

/// Closing a skill run: the robot returns to ready, except after a completed safe
/// shutdown, which keeps the lifecycle the skill left; a completed run records the
/// task's completion, a failed one the skill's failure and then the task's.
pub fn finish_skill(task: &str, skill: &str, lifecycle: RobotLifecycle, succeeded: bool) -> (r: (RobotLifecycle, Vec<Event>))
    ensures
        r.0 == (if succeeded && skill@ == "safe_shutdown"@ { lifecycle } else { RobotLifecycle::Ready }),
        succeeded ==> r.1@.len() == 1 && (r.1@[0] matches Event::TaskCompleted(t) && t@ == task@),
        !succeeded ==> r.1@.len() == 2 && (r.1@[0] matches Event::SkillFailed(k) && k@ == skill@)
            && (r.1@[1] matches Event::TaskFailed(t) && t@ == task@),
{
    let mut events: Vec<Event> = Vec::new();
    if succeeded {
        events.push(Event::TaskCompleted(owned(task)));
        let next = if text_eq(skill, "safe_shutdown") { lifecycle } else { RobotLifecycle::Ready };
        (next, events)
    } else {
        events.push(Event::SkillFailed(owned(skill)));
        events.push(Event::TaskFailed(owned(task)));
        (RobotLifecycle::Ready, events)
    }
}

} // verus!
