//! Stable, hardware-neutral domain contracts: capabilities, safety and lifecycle states,
//! task graphs and structured events.
use vstd::prelude::*;
use crate::text::{ascii_lower, strs, text_eq, texts, to_ascii_lowercase};
use crate::textmap::{strictly_sorted, TextMap, TextSet};

verus! {

/// A machine-readable claim about what a robot can do, as a dotted path.
#[derive(Clone, Debug, PartialEq, Eq, PartialOrd, Ord)]
pub struct Capability(pub String);

impl Capability {
    /// Builds a normalized (ASCII lower-case) dotted capability path.
    pub fn new(value: &str) -> (c: Self)
        ensures
            c.0@ == ascii_lower(value@),
    {
        Capability(to_ascii_lowercase(value))
    }
}

/// A set of capabilities, iterated in path order.
#[derive(Clone, Debug)]
pub struct CapabilitySet {
    paths: TextSet,
}

impl CapabilitySet {
    /// The capability paths, in iteration order.
    pub closed spec fn paths(&self) -> Seq<Seq<char>> {
        self.paths.items()
    }

    /// The capability paths as a set.
    pub open spec fn as_set(&self) -> Set<Seq<char>> {
        self.paths().to_set()
    }

    /// An empty set.
    pub fn new() -> (s: Self)
        ensures
            s.paths().len() == 0,
            s.as_set() == Set::<Seq<char>>::empty(),
    {
        CapabilitySet { paths: TextSet::new() }
    }

    /// A set holding the given capabilities.
    pub fn from_capabilities(caps: Vec<Capability>) -> (s: Self)
        ensures
            forall|p: Seq<char>| s.as_set().contains(p) <==> exists|i: int|
                0 <= i < caps@.len() && #[trigger] caps@[i].0@ == p,
    {
        let mut s = CapabilitySet::new();
        let mut i: usize = 0;
        while i < caps.len()
            invariant
                i <= caps@.len(),
                forall|p: Seq<char>| s.as_set().contains(p) <==> exists|j: int|
                    0 <= j < i && #[trigger] caps@[j].0@ == p,
            decreases caps@.len() - i,
        {
            s.insert(Capability(caps[i].0.clone()));
            proof {
                assert forall|p: Seq<char>| s.as_set().contains(p) <==> exists|j: int|
                    0 <= j < i + 1 && #[trigger] caps@[j].0@ == p by {
                    if p == caps@[i as int].0@ {
                        assert(caps@[i as int].0@ == p);
                    }
                }
            }
            i = i + 1;
        }
        s
    }

    /// Adds a capability.
    pub fn insert(&mut self, cap: Capability)
        ensures
            final(self).as_set() == old(self).as_set().insert(cap.0@),
    {
        self.paths.insert(cap.0);
    }

    /// Whether the exact path is present.
    pub fn contains(&self, path: &str) -> (b: bool)
        ensures
            b == self.as_set().contains(path@),
    {
        self.paths.contains(path)
    }

    /// The number of capabilities.
    pub fn len(&self) -> (n: usize)
        ensures
            n == self.paths().len(),
            strictly_sorted(self.paths()),
            self.paths().no_duplicates(),
    {
        self.paths.len()
    }

    /// Whether the set is empty.
    pub fn is_empty(&self) -> (b: bool)
        ensures
            b == (self.paths().len() == 0),
    {
        self.paths.is_empty()
    }

    /// The `i`-th capability in iteration order.
    pub fn get(&self, i: usize) -> (c: Capability)
        requires
            i < self.paths().len(),
        ensures
            c.0@ == self.paths()[i as int],
    {
        Capability(self.paths.item_at(i).clone())
    }
}

/// The capability paths that also satisfy a requested path, by alias.
pub open spec fn alias_spec(requested: Seq<char>) -> Seq<Seq<char>> {
    if requested == "vision.depth"@ {
        seq!["vision.rgbd"@, "vision.stereo_depth"@, "sensing.lidar_depth"@]
    } else if requested == "vision.rgb"@ {
        seq!["vision.rgbd"@]
    } else if requested == "manipulators.right.gripper"@ || requested == "manipulators.left.gripper"@ {
        seq!["manipulators.gripper"@]
    } else if requested == "locomotion.control"@ {
        seq!["locomotion.biped"@, "locomotion.wheeled"@]
    } else {
        seq![]
    }
}

/// Whether a set of capability paths satisfies a request: the lower-cased request
/// is present, or one of its aliases is.
pub open spec fn satisfies(caps: Set<Seq<char>>, requested: Seq<char>) -> bool {
    let r = ascii_lower(requested);
    caps.contains(r) || exists|i: int| 0 <= i < alias_spec(r).len() && caps.contains(
        #[trigger] ascii_lower(alias_spec(r)[i]),
    )
}

/// Depth vision is satisfied by an RGB-D camera, a stereo depth camera or a lidar
/// depth sensor: a set holding any of them supports `vision.depth` (in any letter
/// case), and so does one holding `vision.depth` itself.
pub proof fn law_depth_aliases(caps: Set<Seq<char>>, requested: Seq<char>)
    requires
        ascii_lower(requested) == "vision.depth"@,
        caps.contains("vision.rgbd"@) || caps.contains("vision.stereo_depth"@) || caps.contains(
            "sensing.lidar_depth"@,
        ) || caps.contains("vision.depth"@),
    ensures
        satisfies(caps, requested),
{
    reveal_strlit("vision.rgbd");
    reveal_strlit("vision.stereo_depth");
    reveal_strlit("sensing.lidar_depth");
    reveal_strlit("vision.depth");
    let a = alias_spec("vision.depth"@);
    crate::text::lemma_lower_fixed("vision.rgbd"@);
    crate::text::lemma_lower_fixed("vision.stereo_depth"@);
    crate::text::lemma_lower_fixed("sensing.lidar_depth"@);
    assert(a[0] == "vision.rgbd"@);
    assert(a[1] == "vision.stereo_depth"@);
    assert(a[2] == "sensing.lidar_depth"@);
    if caps.contains("vision.rgbd"@) {
        assert(caps.contains(ascii_lower(a[0])));
    } else if caps.contains("vision.stereo_depth"@) {
        assert(caps.contains(ascii_lower(a[1])));
    } else if caps.contains("sensing.lidar_depth"@) {
        assert(caps.contains(ascii_lower(a[2])));
    }
}

/// The other aliases: an RGB-D camera gives RGB vision, a generic gripper serves
/// either side's gripper, and a biped or wheeled base gives locomotion control.
pub proof fn law_other_aliases(caps: Set<Seq<char>>)
    ensures
        caps.contains("vision.rgbd"@) ==> satisfies(caps, "vision.rgb"@),
        caps.contains("manipulators.gripper"@) ==> satisfies(caps, "manipulators.left.gripper"@)
            && satisfies(caps, "manipulators.right.gripper"@),
        caps.contains("locomotion.biped"@) || caps.contains("locomotion.wheeled"@) ==> satisfies(
            caps,
            "locomotion.control"@,
        ),
{
    reveal_strlit("vision.rgbd");
    reveal_strlit("vision.rgb");
    reveal_strlit("vision.depth");
    reveal_strlit("manipulators.gripper");
    reveal_strlit("manipulators.left.gripper");
    reveal_strlit("manipulators.right.gripper");
    reveal_strlit("locomotion.biped");
    reveal_strlit("locomotion.wheeled");
    reveal_strlit("locomotion.control");
    crate::text::lemma_lower_fixed("vision.rgbd"@);
    crate::text::lemma_lower_fixed("vision.rgb"@);
    crate::text::lemma_lower_fixed("manipulators.gripper"@);
    crate::text::lemma_lower_fixed("manipulators.left.gripper"@);
    crate::text::lemma_lower_fixed("manipulators.right.gripper"@);
    crate::text::lemma_lower_fixed("locomotion.biped"@);
    crate::text::lemma_lower_fixed("locomotion.wheeled"@);
    crate::text::lemma_lower_fixed("locomotion.control"@);
    if caps.contains("vision.rgbd"@) {
        let a = alias_spec("vision.rgb"@);
        assert(a[0] == "vision.rgbd"@);
        assert(caps.contains(ascii_lower(a[0])));
    }
    if caps.contains("manipulators.gripper"@) {
        let a = alias_spec("manipulators.left.gripper"@);
        assert(a[0] == "manipulators.gripper"@);
        assert(caps.contains(ascii_lower(a[0])));
        let b = alias_spec("manipulators.right.gripper"@);
        assert(b[0] == "manipulators.gripper"@);
        assert(caps.contains(ascii_lower(b[0])));
    }
    let l = alias_spec("locomotion.control"@);
    if caps.contains("locomotion.biped"@) {
        assert(l[0] == "locomotion.biped"@);
        assert(caps.contains(ascii_lower(l[0])));
    } else if caps.contains("locomotion.wheeled"@) {
        assert(l[1] == "locomotion.wheeled"@);
        assert(caps.contains(ascii_lower(l[1])));
    }
}

/// The requirements that a set of capabilities cannot satisfy, in order.
pub open spec fn missing_spec(caps: Set<Seq<char>>, reqs: Seq<Seq<char>>) -> Seq<Seq<char>>
    decreases reqs.len(),
{
    if reqs.len() == 0 {
        seq![]
    } else if satisfies(caps, reqs.last()) {
        missing_spec(caps, reqs.drop_last())
    } else {
        missing_spec(caps, reqs.drop_last()).push(reqs.last())
    }
}

fn capability_aliases(requested: &str) -> (r: Vec<&'static str>)
    ensures
        strs(r@) == alias_spec(requested@),
        requested@ == "vision.depth"@ ==> strs(r@) == seq!["vision.rgbd"@, "vision.stereo_depth"@, "sensing.lidar_depth"@],
{
    proof {
        reveal_strlit("vision.depth");
        reveal_strlit("vision.rgb");
        reveal_strlit("manipulators.right.gripper");
        reveal_strlit("manipulators.left.gripper");
        reveal_strlit("locomotion.control");
    }
    let mut r: Vec<&'static str> = Vec::new();
    if text_eq(requested, "vision.depth") {
        r.push("vision.rgbd");
        r.push("vision.stereo_depth");
        r.push("sensing.lidar_depth");
    } else if text_eq(requested, "vision.rgb") {
        r.push("vision.rgbd");
    } else if text_eq(requested, "manipulators.right.gripper") || text_eq(requested, "manipulators.left.gripper") {
        r.push("manipulators.gripper");
    } else if text_eq(requested, "locomotion.control") {
        r.push("locomotion.biped");
        r.push("locomotion.wheeled");
    }
    proof {
        assert(strs(r@) =~= alias_spec(requested@));
    }
    r
}

/// A capability manifest attached to a robot identity.
#[derive(Clone, Debug)]
pub struct CapabilityManifest {
    pub robot_id: String,
    pub name: String,
    pub architecture: String,
    pub capabilities: CapabilitySet,
}

impl CapabilityManifest {
    /// Checks an exact capability or an alias understood by Nexus.
    pub fn supports(&self, requested: &str) -> (b: bool)
        ensures
            b == satisfies(self.capabilities.as_set(), requested@),
    {
        let lower = to_ascii_lowercase(requested);
        if self.capabilities.contains(lower.as_str()) {
            return true;
        }
        let aliases = capability_aliases(lower.as_str());
        let mut i: usize = 0;
        while i < aliases.len()
            invariant
                i <= aliases@.len(),
                lower@ == ascii_lower(requested@),
                strs(aliases@) == alias_spec(lower@),
                !self.capabilities.as_set().contains(lower@),
                forall|j: int| 0 <= j < i ==> !self.capabilities.as_set().contains(
                    #[trigger] ascii_lower(alias_spec(lower@)[j]),
                ),
            decreases aliases@.len() - i,
        {
            let alias = Capability::new(aliases[i]);
            proof {
                assert(strs(aliases@)[i as int] == aliases@[i as int]@);
            }
            if self.capabilities.contains(alias.0.as_str()) {
                return true;
            }
            i = i + 1;
        }
        false
    }

    /// Returns all capability requirements this manifest cannot satisfy, in order.
    pub fn missing(&self, requirements: &[String]) -> (r: Vec<String>)
        ensures
            texts(r@) == missing_spec(self.capabilities.as_set(), texts(requirements@)),
    {
        let mut out: Vec<String> = Vec::new();
        let mut i: usize = 0;
        while i < requirements.len()
            invariant
                i <= requirements@.len(),
                texts(out@) == missing_spec(
                    self.capabilities.as_set(),
                    texts(requirements@).subrange(0, i as int),
                ),
            decreases requirements@.len() - i,
        {
            let ghost reqs = texts(requirements@).subrange(0, i + 1);
            proof {
                assert(reqs.drop_last() =~= texts(requirements@).subrange(0, i as int));
                assert(reqs.last() == requirements@[i as int]@);
            }
            if !self.supports(requirements[i].as_str()) {
                out.push(requirements[i].clone());
                proof {
                    assert(texts(out@) =~= missing_spec(self.capabilities.as_set(), texts(requirements@).subrange(0, i as int)).push(requirements@[i as int]@));
                }
            }
            i = i + 1;
        }
        proof {
            assert(texts(requirements@).subrange(0, requirements@.len() as int) =~= texts(requirements@));
        }
        out
    }
}

/// A reusable, declarative query for capability compatibility.
#[derive(Clone, Debug)]
pub struct CapabilityQuery {
    pub requirements: Vec<String>,
}

/// The outcome of a compatibility query.
#[derive(Clone, Debug, PartialEq, Eq)]
pub struct Compatibility {
    pub compatible: bool,
    pub missing: Vec<String>,
}

impl CapabilityQuery {
    /// Compatible exactly when no requirement is missing.
    pub fn evaluate(&self, manifest: &CapabilityManifest) -> (c: Compatibility)
        ensures
            texts(c.missing@) == missing_spec(manifest.capabilities.as_set(), texts(self.requirements@)),
            c.compatible == (c.missing@.len() == 0),
    {
        let missing = manifest.missing(self.requirements.as_slice());
        let compatible = missing.len() == 0;
        Compatibility { compatible, missing }
    }
}

/// The kind of an actuator command, as the safety check sees it.
#[derive(Clone, Copy, Debug, PartialEq, Eq, Structural)]
pub enum CommandKind {
    Move,
    SetJoint,
    Stop,
}

/// The outcome of checking one actuator command.
#[derive(Clone, Copy, Debug, PartialEq, Eq, Structural)]
pub enum SafetyVerdict {
    Allowed,
    EmergencyStopActive,
    RestrictedZone,
    JointLimit,
    SpeedLimit,
}

/// The order in which a command is checked: under an emergency stop only a stop
/// passes; then the `no-entry` zone is refused; then a joint command outside its
/// limits, and a move above the speed limit.
pub open spec fn safety_verdict(
    state: SafetyState,
    command: CommandKind,
    zone: Option<Seq<char>>,
    joint_out_of_limits: bool,
    speed_over_limit: bool,
) -> SafetyVerdict {
    if state == SafetyState::EmergencyStop && command != CommandKind::Stop {
        SafetyVerdict::EmergencyStopActive
    } else if zone == Some("no-entry"@) {
        SafetyVerdict::RestrictedZone
    } else if command == CommandKind::SetJoint && joint_out_of_limits {
        SafetyVerdict::JointLimit
    } else if command == CommandKind::Move && speed_over_limit {
        SafetyVerdict::SpeedLimit
    } else {
        SafetyVerdict::Allowed
    }
}

/// Checks a command. The limit comparisons are made by the caller on its own
/// measurements: `joint_out_of_limits` is whether a joint command's angle lies
/// outside that joint's known limits, `speed_over_limit` whether a move's speed
/// exceeds the maximum in magnitude.
pub fn check_command(
    state: SafetyState,
    command: CommandKind,
    zone: Option<&str>,
    joint_out_of_limits: bool,
    speed_over_limit: bool,
) -> (v: SafetyVerdict)
    ensures
        v == safety_verdict(
            state,
            command,
            match zone {
                Some(z) => Some(z@),
                None => None,
            },
            joint_out_of_limits,
            speed_over_limit,
        ),
{
    if state == SafetyState::EmergencyStop && command != CommandKind::Stop {
        return SafetyVerdict::EmergencyStopActive;
    }
    match zone {
        Some(z) => {
            if text_eq(z, "no-entry") {
                return SafetyVerdict::RestrictedZone;
            }
        },
        None => {},
    }
    if command == CommandKind::SetJoint && joint_out_of_limits {
        SafetyVerdict::JointLimit
    } else if command == CommandKind::Move && speed_over_limit {
        SafetyVerdict::SpeedLimit
    } else {
        SafetyVerdict::Allowed
    }
}

/// Under an emergency stop, a stop is the only command that can be allowed, and
/// it always is outside the `no-entry` zone.
pub proof fn law_emergency_stop_lets_only_stop_through(
    command: CommandKind,
    zone: Option<Seq<char>>,
    joint_out_of_limits: bool,
    speed_over_limit: bool,
)
    ensures
        safety_verdict(SafetyState::EmergencyStop, command, zone, joint_out_of_limits, speed_over_limit)
            == SafetyVerdict::Allowed <==> (command == CommandKind::Stop && zone != Some("no-entry"@)),
{
}

/// Safety is deliberately a state machine, never a boolean flag.
#[derive(Clone, Copy, Debug, PartialEq, Eq, Structural)]
pub enum SafetyState {
    Safe,
    Caution,
    Limited,
    EmergencyStop,
    Fault,
}

impl SafetyState {
    /// The upper-case name of the state.
    pub fn label(self) -> (l: &'static str)
        ensures
            l@ == match self {
                SafetyState::Safe => "SAFE"@,
                SafetyState::Caution => "CAUTION"@,
                SafetyState::Limited => "LIMITED"@,
                SafetyState::EmergencyStop => "EMERGENCY_STOP"@,
                SafetyState::Fault => "FAULT"@,
            },
    {
        match self {
            SafetyState::Safe => "SAFE",
            SafetyState::Caution => "CAUTION",
            SafetyState::Limited => "LIMITED",
            SafetyState::EmergencyStop => "EMERGENCY_STOP",
            SafetyState::Fault => "FAULT",
        }
    }
}

#[derive(Clone, Copy, Debug, PartialEq, Eq, Structural)]
pub enum Health {
    Healthy,
    Degraded,
    Maintenance,
    Fault,
    Offline,
}

#[derive(Clone, Copy, Debug, PartialEq, Eq, Structural)]
pub enum RobotLifecycle {
    Provisioning,
    Connecting,
    Ready,
    Executing,
    Paused,
    Degraded,
    EmergencyStop,
    Offline,
}

#[derive(Clone, Copy, Debug, PartialEq, Eq, Structural)]
pub enum TaskLifecycle {
    Queued,
    Planning,
    Ready,
    Running,
    Paused,
    Completed,
    Failed,
    Cancelled,
}

/// A node in an inspectable deterministic task graph.
#[derive(Clone, Debug, PartialEq)]
pub enum TaskNode {
    Action(String),
    Condition(String),
    Wait(String),
    Branch(String),
    Recovery(String),
}

#[derive(Clone, Debug, PartialEq)]
pub struct TaskGraph {
    pub task_id: String,
    pub nodes: Vec<TaskNode>,
}

#[derive(Clone, Debug)]
pub struct StructuredLog {
    pub timestamp_ms: u128,
    pub robot_id: String,
    pub task_id: Option<String>,
    pub skill_id: Option<String>,
    pub component: String,
    pub severity: Severity,
    pub message: String,
    pub context: TextMap<String>,
}

#[derive(Clone, Copy, Debug, PartialEq, Eq, Structural)]
pub enum Severity {
    Debug,
    Info,
    Warn,
    Error,
}

#[derive(Clone, Debug, PartialEq)]
pub enum Event {
    RobotConnected,
    TaskStarted(String),
    TaskCompleted(String),
    TaskFailed(String),
    SkillStarted(String),
    SkillFailed(String),
    SafetyTriggered,
    BatteryLow,
}

} // verus!
