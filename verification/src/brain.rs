//! Nexus Brain: the hardware-aware coordination layer. It sizes memory, places
//! workloads and grades perception features from a declared hardware profile, and
//! never controls actuators directly. Private workloads default to local execution.
use vstd::prelude::*;
use crate::domain::{Capability, CapabilityManifest, CapabilitySet};
use crate::text::{owned, texts};

verus! {

/// Intelligence class recommended for a hardware profile, from least to most capable.
#[derive(Clone, Copy, Debug, PartialEq, Eq, Structural, PartialOrd, Ord)]
pub enum IntelligenceClass {
    N0Control,
    N1Lite,
    N2Adaptive,
    N3Intelligent,
    N4Advanced,
}

/// The position of a class in the capability order.
pub open spec fn class_rank(c: IntelligenceClass) -> int {
    match c {
        IntelligenceClass::N0Control => 0,
        IntelligenceClass::N1Lite => 1,
        IntelligenceClass::N2Adaptive => 2,
        IntelligenceClass::N3Intelligent => 3,
        IntelligenceClass::N4Advanced => 4,
    }
}

impl IntelligenceClass {
    /// Human-readable class name.
    pub fn label(self) -> (l: &'static str)
        ensures
            l@ == match self {
                IntelligenceClass::N0Control => "N0 Control"@,
                IntelligenceClass::N1Lite => "N1 Lite"@,
                IntelligenceClass::N2Adaptive => "N2 Adaptive"@,
                IntelligenceClass::N3Intelligent => "N3 Intelligent"@,
                IntelligenceClass::N4Advanced => "N4 Advanced"@,
            },
    {
        match self {
            IntelligenceClass::N0Control => "N0 Control",
            IntelligenceClass::N1Lite => "N1 Lite",
            IntelligenceClass::N2Adaptive => "N2 Adaptive",
            IntelligenceClass::N3Intelligent => "N3 Intelligent",
            IntelligenceClass::N4Advanced => "N4 Advanced",
        }
    }

    /// The position of the class in the capability order (`N0Control` first).
    pub fn rank(self) -> (r: u8)
        ensures
            r == class_rank(self),
    {
        match self {
            IntelligenceClass::N0Control => 0,
            IntelligenceClass::N1Lite => 1,
            IntelligenceClass::N2Adaptive => 2,
            IntelligenceClass::N3Intelligent => 3,
            IntelligenceClass::N4Advanced => 4,
        }
    }
}

#[derive(Clone, Copy, Debug, PartialEq, Eq, Structural)]
pub enum FeatureLevel {
    Unavailable,
    Basic,
    Enhanced,
    Advanced,
}

#[derive(Clone, Copy, Debug, PartialEq, Eq, Structural)]
pub enum ComputePlacement {
    LocalRequired,
    LocalPreferred,
    RemoteAllowed,
    RemotePreferred,
    Disabled,
}

/// A declared robot hardware profile.
#[derive(Clone, Debug)]
pub struct HardwareProfile {
    pub name: String,
    pub robot_type: String,
    pub architecture: String,
    pub cpu_cores: u16,
    pub ram_mb: u32,
    pub storage_gb: u32,
    pub has_gpu: bool,
    pub has_npu: bool,
    pub network_connected: bool,
    pub battery_percent: Option<u8>,
    pub rgb_cameras: u8,
    pub depth_cameras: u8,
    pub lidar: bool,
    pub imu: bool,
    pub range_sensors: u8,
    pub motors: u8,
    pub servos: u8,
    pub arms: u8,
    pub grippers: u8,
    pub speakers: u8,
    pub screen: bool,
    pub lights: bool,
}

/// The plain values of a hardware profile.
pub struct ProfileView {
    pub name: Seq<char>,
    pub robot_type: Seq<char>,
    pub architecture: Seq<char>,
    pub cpu_cores: u16,
    pub ram_mb: u32,
    pub storage_gb: u32,
    pub has_gpu: bool,
    pub has_npu: bool,
    pub network_connected: bool,
    pub battery_percent: Option<u8>,
    pub rgb_cameras: u8,
    pub depth_cameras: u8,
    pub lidar: bool,
    pub imu: bool,
    pub range_sensors: u8,
    pub motors: u8,
    pub servos: u8,
    pub arms: u8,
    pub grippers: u8,
    pub speakers: u8,
    pub screen: bool,
    pub lights: bool,
}

impl View for HardwareProfile {
    type V = ProfileView;

    open spec fn view(&self) -> ProfileView {
        ProfileView {
            name: self.name@,
            robot_type: self.robot_type@,
            architecture: self.architecture@,
            cpu_cores: self.cpu_cores,
            ram_mb: self.ram_mb,
            storage_gb: self.storage_gb,
            has_gpu: self.has_gpu,
            has_npu: self.has_npu,
            network_connected: self.network_connected,
            battery_percent: self.battery_percent,
            rgb_cameras: self.rgb_cameras,
            depth_cameras: self.depth_cameras,
            lidar: self.lidar,
            imu: self.imu,
            range_sensors: self.range_sensors,
            motors: self.motors,
            servos: self.servos,
            arms: self.arms,
            grippers: self.grippers,
            speakers: self.speakers,
            screen: self.screen,
            lights: self.lights,
        }
    }
}

/// The reference minimum robot profile.
pub open spec fn minimum_robot_spec() -> ProfileView {
    ProfileView {
        name: "Nexus Minimum Robot"@,
        robot_type: "mobile-robot"@,
        architecture: "aarch64"@,
        cpu_cores: 2,
        ram_mb: 1024,
        storage_gb: 16,
        has_gpu: false,
        has_npu: false,
        network_connected: true,
        battery_percent: Some(80u8),
        rgb_cameras: 1,
        depth_cameras: 0,
        lidar: false,
        imu: true,
        range_sensors: 3,
        motors: 2,
        servos: 0,
        arms: 0,
        grippers: 0,
        speakers: 0,
        screen: false,
        lights: true,
    }
}

/// The NXR-2 reference simulator profile on the given host architecture.
pub open spec fn nxr2_spec(architecture: Seq<char>) -> ProfileView {
    ProfileView {
        name: "NXR-2 Reference Simulator"@,
        robot_type: "mobile-manipulator"@,
        architecture,
        cpu_cores: 8,
        ram_mb: 8192,
        storage_gb: 64,
        has_gpu: false,
        has_npu: false,
        network_connected: true,
        battery_percent: Some(100u8),
        rgb_cameras: 2,
        depth_cameras: 1,
        lidar: true,
        imu: true,
        range_sensors: 4,
        motors: 2,
        servos: 14,
        arms: 2,
        grippers: 2,
        speakers: 1,
        screen: true,
        lights: true,
    }
}

/// The profile of a host whose only known facts are its architecture and core count:
/// the minimum robot, renamed, as a custom robot.
pub open spec fn discovered_host_spec(architecture: Seq<char>, cores: u16) -> ProfileView {
    ProfileView {
        name: "Local Nexus Host (detected compute only)"@,
        robot_type: "custom"@,
        architecture,
        cpu_cores: cores,
        ..minimum_robot_spec()
    }
}

/// The warnings a profile raises, in order.
pub open spec fn warnings_spec(p: ProfileView) -> Seq<Seq<char>> {
    (if p.cpu_cores == 0 { seq!["CPU core count must be greater than zero"@] } else { seq![] })
    + (if p.ram_mb < 256 { seq!["at least 256 MB RAM is required for a Nexus runtime profile"@] } else { seq![] })
    + (if p.storage_gb < 1 { seq!["persistent storage must be configured"@] } else { seq![] })
    + (if p.motors > 0 && p.range_sensors == 0 && !p.lidar && p.depth_cameras == 0 {
        seq!["mobile movement has no declared range, depth, or lidar sensing"@]
    } else {
        seq![]
    })
    + (if p.arms > 0 && p.servos == 0 { seq!["arm declared without servo count or joint-limit mapping"@] } else { seq![] })
    + (if p.grippers > 0 && p.arms == 0 { seq!["gripper declared without an arm mapping"@] } else { seq![] })
}

fn push_literal(v: &mut Vec<String>, s: &str)
    ensures
        texts(final(v)@) == texts(old(v)@).push(s@),
{
    v.push(owned(s));
    proof {
        assert(texts(v@) =~= texts(old(v)@).push(s@));
    }
}

impl HardwareProfile {
    /// The reference minimum robot profile.
    pub fn minimum_robot() -> (p: Self)
        ensures
            p@ == minimum_robot_spec(),
    {
        let p = HardwareProfile {
            name: owned("Nexus Minimum Robot"),
            robot_type: owned("mobile-robot"),
            architecture: owned("aarch64"),
            cpu_cores: 2,
            ram_mb: 1024,
            storage_gb: 16,
            has_gpu: false,
            has_npu: false,
            network_connected: true,
            battery_percent: Some(80),
            rgb_cameras: 1,
            depth_cameras: 0,
            lidar: false,
            imu: true,
            range_sensors: 3,
            motors: 2,
            servos: 0,
            arms: 0,
            grippers: 0,
            speakers: 0,
            screen: false,
            lights: true,
        };
        p
    }

    /// The NXR-2 reference simulator profile, on a host of the given architecture.
    pub fn nxr2_on(architecture: &str) -> (p: Self)
        ensures
            p@ == nxr2_spec(architecture@),
    {
        HardwareProfile {
            name: owned("NXR-2 Reference Simulator"),
            robot_type: owned("mobile-manipulator"),
            architecture: owned(architecture),
            cpu_cores: 8,
            ram_mb: 8192,
            storage_gb: 64,
            has_gpu: false,
            has_npu: false,
            network_connected: true,
            battery_percent: Some(100),
            rgb_cameras: 2,
            depth_cameras: 1,
            lidar: true,
            imu: true,
            range_sensors: 4,
            motors: 2,
            servos: 14,
            arms: 2,
            grippers: 2,
            speakers: 1,
            screen: true,
            lights: true,
        }
    }

    /// The profile of the local host, from its architecture and the parallelism it reports
    /// (clamped to the largest core count a profile can hold; `None` counts as one core).
    pub fn discovered_host_with(architecture: &str, parallelism: Option<usize>) -> (p: Self)
        ensures
            p@ == discovered_host_spec(
                architecture@,
                match parallelism {
                    Some(n) => if n > u16::MAX { u16::MAX } else { n as u16 },
                    None => 1u16,
                },
            ),
    {
        let mut profile = Self::minimum_robot();
        profile.name = owned("Local Nexus Host (detected compute only)");
        profile.robot_type = owned("custom");
        profile.architecture = owned(architecture);
        profile.cpu_cores = match parallelism {
            Some(n) => if n > 65535 { 65535 } else { n as u16 },
            None => 1,
        };
        profile
    }

    /// Declared-configuration problems, in a fixed order.
    pub fn validation_warnings(&self) -> (w: Vec<String>)
        ensures
            texts(w@) == warnings_spec(self@),
    {
        let mut warnings: Vec<String> = Vec::new();
        if self.cpu_cores == 0 {
            push_literal(&mut warnings, "CPU core count must be greater than zero");
        }
        if self.ram_mb < 256 {
            push_literal(&mut warnings, "at least 256 MB RAM is required for a Nexus runtime profile");
        }
        if self.storage_gb < 1 {
            push_literal(&mut warnings, "persistent storage must be configured");
        }
        if self.motors > 0 && self.range_sensors == 0 && !self.lidar && self.depth_cameras == 0 {
            push_literal(&mut warnings, "mobile movement has no declared range, depth, or lidar sensing");
        }
        if self.arms > 0 && self.servos == 0 {
            push_literal(&mut warnings, "arm declared without servo count or joint-limit mapping");
        }
        if self.grippers > 0 && self.arms == 0 {
            push_literal(&mut warnings, "gripper declared without an arm mapping");
        }
        proof {
            assert(texts(warnings@) =~= warnings_spec(self@));
        }
        warnings
    }
}

/// Sub-scores of a profile, each capped at 100, and the recommended class.
#[derive(Clone, Debug)]
pub struct CapabilityIndex {
    pub compute: u8,
    pub memory: u8,
    pub perception: u8,
    pub mobility: u8,
    pub manipulation: u8,
    pub connectivity: u8,
    pub acceleration: u8,
    pub recommended: IntelligenceClass,
}

pub open spec fn cap100(x: int) -> int {
    if x < 100 { x } else { 100 }
}

/// The intelligence class a profile supports.
pub open spec fn recommended_class(p: ProfileView) -> IntelligenceClass {
    if p.ram_mb < 512 || p.cpu_cores < 2 {
        IntelligenceClass::N0Control
    } else if p.ram_mb < 4096 || p.cpu_cores < 4 {
        IntelligenceClass::N1Lite
    } else if p.ram_mb < 8192 || p.cpu_cores < 8 {
        IntelligenceClass::N2Adaptive
    } else if p.ram_mb < 16384 && !p.has_gpu && !p.has_npu {
        IntelligenceClass::N3Intelligent
    } else {
        IntelligenceClass::N4Advanced
    }
}

/// A board with at least 8 cores and 8192 MB of RAM is N3Intelligent exactly when it
/// has less than 16384 MB and neither a GPU nor an NPU; any accelerator, or 16384 MB
/// and more, makes it N4Advanced.
pub proof fn law_capable_board_class(p: ProfileView)
    requires
        p.ram_mb >= 8192,
        p.cpu_cores >= 8,
    ensures
        (p.has_gpu || p.has_npu) ==> recommended_class(p) == IntelligenceClass::N4Advanced,
        p.ram_mb >= 16384 ==> recommended_class(p) == IntelligenceClass::N4Advanced,
        (recommended_class(p) == IntelligenceClass::N3Intelligent) <==> (p.ram_mb < 16384 && !p.has_gpu
            && !p.has_npu),
        recommended_class(p) == IntelligenceClass::N3Intelligent || recommended_class(p)
            == IntelligenceClass::N4Advanced,
{
}

/// The class thresholds: under 512 MB or 2 cores a board only controls (N0); under
/// 4096 MB or 4 cores it is N1Lite; under 8192 MB or 8 cores it is N2Adaptive; an
/// accelerator matters only above that.
pub proof fn law_class_thresholds(p: ProfileView)
    ensures
        (recommended_class(p) == IntelligenceClass::N0Control) <==> (p.ram_mb < 512 || p.cpu_cores < 2),
        (recommended_class(p) == IntelligenceClass::N1Lite) <==> (p.ram_mb >= 512 && p.cpu_cores >= 2 && (
        p.ram_mb < 4096 || p.cpu_cores < 4)),
        (recommended_class(p) == IntelligenceClass::N2Adaptive) <==> (p.ram_mb >= 4096 && p.cpu_cores >= 4 && (
        p.ram_mb < 8192 || p.cpu_cores < 8)),
        (p.ram_mb < 8192 || p.cpu_cores < 8) ==> recommended_class(p) == recommended_class(
            ProfileView { has_gpu: !p.has_gpu, has_npu: !p.has_npu, ..p },
        ),
{
}

/// Adding an accelerator, more RAM or more cores never lowers the class.
pub proof fn law_class_grows_with_hardware(p: ProfileView, q: ProfileView)
    requires
        q.ram_mb >= p.ram_mb,
        q.cpu_cores >= p.cpu_cores,
        p.has_gpu ==> q.has_gpu,
        p.has_npu ==> q.has_npu,
    ensures
        class_rank(recommended_class(q)) >= class_rank(recommended_class(p)),
{
}

fn min100(x: u32) -> (r: u8)
    ensures
        r == cap100(x as int),
{
    if x < 100 { x as u8 } else { 100 }
}

impl CapabilityIndex {
    /// Scores a profile.
    pub fn evaluate(profile: &HardwareProfile) -> (c: Self)
        ensures
            c.compute == cap100(profile.cpu_cores * 10 + if profile.has_gpu || profile.has_npu { 20int } else { 0 }),
            c.memory == cap100((profile.ram_mb / 80) as int),
            c.perception == cap100(profile.rgb_cameras * 15 + profile.depth_cameras * 25
                + (if profile.lidar { 30int } else { 0 }) + (if profile.imu { 10int } else { 0 })
                + profile.range_sensors * 5),
            c.mobility == cap100(profile.motors * 25 + profile.servos * 3),
            c.manipulation == cap100(profile.arms * 35 + profile.grippers * 25 + profile.servos * 2),
            c.connectivity == if profile.network_connected { 80u8 } else { 10u8 },
            c.acceleration == if profile.has_gpu && profile.has_npu { 100u8 } else if profile.has_gpu || profile.has_npu { 70u8 } else { 0u8 },
            c.recommended == recommended_class(profile@),
            profile.ram_mb >= 8192 && profile.cpu_cores >= 8 ==> c.recommended == (if profile.ram_mb < 16384
                && !profile.has_gpu && !profile.has_npu {
                IntelligenceClass::N3Intelligent
            } else {
                IntelligenceClass::N4Advanced
            }),
    {
        let compute = min100((profile.cpu_cores as u32) * 10 + if profile.has_gpu || profile.has_npu { 20 } else { 0 });
        let memory = min100(profile.ram_mb / 80);
        let perception = min100(
            (profile.rgb_cameras as u32) * 15 + (profile.depth_cameras as u32) * 25 + (if profile.lidar { 30 } else { 0 })
                + (if profile.imu { 10 } else { 0 }) + (profile.range_sensors as u32) * 5,
        );
        let mobility = min100((profile.motors as u32) * 25 + (profile.servos as u32) * 3);
        let manipulation = min100((profile.arms as u32) * 35 + (profile.grippers as u32) * 25 + (profile.servos as u32) * 2);
        let connectivity: u8 = if profile.network_connected { 80 } else { 10 };
        let acceleration: u8 = if profile.has_gpu && profile.has_npu {
            100
        } else if profile.has_gpu || profile.has_npu {
            70
        } else {
            0
        };
        let recommended = if profile.ram_mb < 512 || profile.cpu_cores < 2 {
            IntelligenceClass::N0Control
        } else if profile.ram_mb < 4096 || profile.cpu_cores < 4 {
            IntelligenceClass::N1Lite
        } else if profile.ram_mb < 8192 || profile.cpu_cores < 8 {
            IntelligenceClass::N2Adaptive
        } else if profile.ram_mb < 16384 && !profile.has_gpu && !profile.has_npu {
            IntelligenceClass::N3Intelligent
        } else {
            IntelligenceClass::N4Advanced
        };
        CapabilityIndex { compute, memory, perception, mobility, manipulation, connectivity, acceleration, recommended }
    }
}

/// A memory budget in megabytes per runtime component.
#[derive(Clone, Debug)]
pub struct MemCorePlan {
    pub runtime_mb: u32,
    pub perception_mb: u32,
    pub world_state_mb: u32,
    pub planner_mb: u32,
    pub model_mb: u32,
    pub reserve_mb: u32,
}

/// The memory the plan works with: the profile's RAM, at least 256 MB.
pub open spec fn plan_total(ram_mb: u32) -> int {
    if ram_mb < 256 { 256 } else { ram_mb as int }
}

pub open spec fn clamp_spec(x: int, lo: int, hi: int) -> int {
    if x < lo { lo } else if x > hi { hi } else { x }
}

impl MemCorePlan {
    /// The plan `allocate` makes for a profile with `ram_mb` of RAM and this class.
    pub open spec fn allocate_spec(ram_mb: u32, class: IntelligenceClass) -> MemCorePlan {
        let total = plan_total(ram_mb);
        let runtime_mb = clamp_spec(total / 10, 96, 512);
        let perception_mb = match class {
            IntelligenceClass::N0Control => 0,
            IntelligenceClass::N1Lite => total / 8,
            _ => total / 6,
        };
        let world_state_mb = match class {
            IntelligenceClass::N0Control => 32,
            IntelligenceClass::N1Lite => total / 12,
            _ => total / 10,
        };
        let planner_mb = match class {
            IntelligenceClass::N0Control => 0,
            IntelligenceClass::N1Lite => total / 12,
            _ => total / 10,
        };
        let model_mb = match class {
            IntelligenceClass::N0Control | IntelligenceClass::N1Lite => 0,
            IntelligenceClass::N2Adaptive => total / 6,
            IntelligenceClass::N3Intelligent => total / 4,
            IntelligenceClass::N4Advanced => total / 3,
        };
        let allocated = runtime_mb + perception_mb + world_state_mb + planner_mb + model_mb;
        let rest = if total > allocated { total - allocated } else { 0 };
        MemCorePlan {
            runtime_mb: runtime_mb as u32,
            perception_mb: perception_mb as u32,
            world_state_mb: world_state_mb as u32,
            planner_mb: planner_mb as u32,
            model_mb: model_mb as u32,
            reserve_mb: (if rest > total / 5 { rest } else { total / 5 }) as u32,
        }
    }

    /// Divides the profile's memory between runtime components by intelligence class.
    pub fn allocate(profile: &HardwareProfile, class: IntelligenceClass) -> (m: Self)
        ensures
            ({
                let total = plan_total(profile.ram_mb);
                &&& m.runtime_mb == clamp_spec(total / 10, 96, 512)
                &&& m.perception_mb == match class {
                    IntelligenceClass::N0Control => 0,
                    IntelligenceClass::N1Lite => total / 8,
                    _ => total / 6,
                }
                &&& m.world_state_mb == match class {
                    IntelligenceClass::N0Control => 32,
                    IntelligenceClass::N1Lite => total / 12,
                    _ => total / 10,
                }
                &&& m.planner_mb == match class {
                    IntelligenceClass::N0Control => 0,
                    IntelligenceClass::N1Lite => total / 12,
                    _ => total / 10,
                }
                &&& m.model_mb == match class {
                    IntelligenceClass::N0Control | IntelligenceClass::N1Lite => 0,
                    IntelligenceClass::N2Adaptive => total / 6,
                    IntelligenceClass::N3Intelligent => total / 4,
                    IntelligenceClass::N4Advanced => total / 3,
                }
                &&& m.reserve_mb == ({
                    let allocated = m.runtime_mb + m.perception_mb + m.world_state_mb + m.planner_mb + m.model_mb;
                    let rest = if total > allocated { total - allocated } else { 0 };
                    if rest > total / 5 { rest } else { total / 5 }
                })
            }),
    {
        let total: u32 = if profile.ram_mb < 256 { 256 } else { profile.ram_mb };
        let tenth = total / 10;
        let runtime_mb: u32 = if tenth < 96 { 96 } else if tenth > 512 { 512 } else { tenth };
        let perception_mb: u32 = match class {
            IntelligenceClass::N0Control => 0,
            IntelligenceClass::N1Lite => total / 8,
            _ => total / 6,
        };
        let world_state_mb: u32 = match class {
            IntelligenceClass::N0Control => 32,
            IntelligenceClass::N1Lite => total / 12,
            _ => total / 10,
        };
        let planner_mb: u32 = match class {
            IntelligenceClass::N0Control => 0,
            IntelligenceClass::N1Lite => total / 12,
            _ => total / 10,
        };
        let model_mb: u32 = match class {
            IntelligenceClass::N0Control | IntelligenceClass::N1Lite => 0,
            IntelligenceClass::N2Adaptive => total / 6,
            IntelligenceClass::N3Intelligent => total / 4,
            IntelligenceClass::N4Advanced => total / 3,
        };
        let allocated = runtime_mb + perception_mb + world_state_mb + planner_mb + model_mb;
        let rest = total.saturating_sub(allocated);
        let fifth = total / 5;
        let reserve_mb = if rest > fifth { rest } else { fifth };
        MemCorePlan { runtime_mb, perception_mb, world_state_mb, planner_mb, model_mb, reserve_mb }
    }

    /// What the runtime does when only `available_mb` of memory is free.
    pub fn pressure_response(&self, available_mb: u32) -> (r: &'static str)
        ensures
            r@ == if available_mb < self.reserve_mb / 2 {
                "unload optional model; preserve safety and control; use deterministic fallback"@
            } else if available_mb < self.reserve_mb {
                "reduce planning context and compress old world state"@
            } else {
                "normal"@
            },
    {
        if available_mb < self.reserve_mb / 2 {
            "unload optional model; preserve safety and control; use deterministic fallback"
        } else if available_mb < self.reserve_mb {
            "reduce planning context and compress old world state"
        } else {
            "normal"
        }
    }
}

/// How the runtime is arranged on a profile.
#[derive(Clone, Debug)]
pub struct AdaptiveRuntimePlan {
    pub class: IntelligenceClass,
    pub memory: MemCorePlan,
    pub local_workloads: Vec<String>,
    pub edge_eligible: Vec<String>,
    pub disabled: Vec<String>,
    pub sense_hopping: FeatureLevel,
    pub structure_scan: FeatureLevel,
    pub interaction: FeatureLevel,
}

pub struct AdaptiveRuntimePlanner;

pub open spec fn sense_hopping_level(p: ProfileView) -> FeatureLevel {
    if p.lidar && p.depth_cameras > 0 {
        FeatureLevel::Advanced
    } else if p.rgb_cameras > 0 && (p.range_sensors > 0 || p.imu) {
        FeatureLevel::Enhanced
    } else if p.rgb_cameras > 0 || p.range_sensors > 0 {
        FeatureLevel::Basic
    } else {
        FeatureLevel::Unavailable
    }
}

pub open spec fn structure_scan_level(p: ProfileView) -> FeatureLevel {
    if p.lidar && p.depth_cameras > 0 {
        FeatureLevel::Advanced
    } else if p.depth_cameras > 0 {
        FeatureLevel::Enhanced
    } else if p.rgb_cameras > 0 {
        FeatureLevel::Basic
    } else {
        FeatureLevel::Unavailable
    }
}

pub open spec fn interaction_level(p: ProfileView) -> FeatureLevel {
    if p.screen && p.speakers > 0 {
        FeatureLevel::Advanced
    } else if p.screen || p.speakers > 0 || p.lights {
        FeatureLevel::Basic
    } else {
        FeatureLevel::Unavailable
    }
}

/// Workloads that always run on the robot, then those unlocked by the class.
pub open spec fn local_workloads_spec(class: IntelligenceClass) -> Seq<Seq<char>> {
    seq!["Safety and actuator control"@, "Capability resolution"@, "Telemetry"@, "Deterministic skills"@]
        + (if class_rank(class) >= 1 { seq!["Basic planning and short-term memory"@] } else { seq![] })
        + (if class_rank(class) >= 2 { seq!["Local perception and StructureScan context"@] } else { seq![] })
        + (if class_rank(class) >= 3 { seq!["Local model runtime eligible"@] } else { seq![] })
}

pub open spec fn edge_eligible_spec(network_connected: bool) -> Seq<Seq<char>> {
    if network_connected {
        seq!["Large vision reasoning"@, "Long-horizon planning"@, "Learning analysis"@]
    } else {
        seq![]
    }
}

pub open spec fn disabled_spec(class: IntelligenceClass, network_connected: bool) -> Seq<Seq<char>> {
    (if class_rank(class) < 2 { seq!["Local model runtime"@] } else { seq![] })
        + (if !network_connected { seq!["Edge Brain workloads"@] } else { seq![] })
}

impl AdaptiveRuntimePlanner {
    /// Plans the runtime for a profile.
    pub fn plan(profile: &HardwareProfile) -> (p: AdaptiveRuntimePlan)
        ensures
            p.class == recommended_class(profile@),
            p.memory == MemCorePlan::allocate_spec(profile.ram_mb, recommended_class(profile@)),
            p.sense_hopping == sense_hopping_level(profile@),
            p.structure_scan == structure_scan_level(profile@),
            p.interaction == interaction_level(profile@),
            texts(p.local_workloads@) == local_workloads_spec(p.class),
            texts(p.edge_eligible@) == edge_eligible_spec(profile.network_connected),
            texts(p.disabled@) == disabled_spec(p.class, profile.network_connected),
    {
        let index = CapabilityIndex::evaluate(profile);
        let class = index.recommended;
        let sense_hopping = if profile.lidar && profile.depth_cameras > 0 {
            FeatureLevel::Advanced
        } else if profile.rgb_cameras > 0 && (profile.range_sensors > 0 || profile.imu) {
            FeatureLevel::Enhanced
        } else if profile.rgb_cameras > 0 || profile.range_sensors > 0 {
            FeatureLevel::Basic
        } else {
            FeatureLevel::Unavailable
        };
        let structure_scan = if profile.lidar && profile.depth_cameras > 0 {
            FeatureLevel::Advanced
        } else if profile.depth_cameras > 0 {
            FeatureLevel::Enhanced
        } else if profile.rgb_cameras > 0 {
            FeatureLevel::Basic
        } else {
            FeatureLevel::Unavailable
        };
        let interaction = if profile.screen && profile.speakers > 0 {
            FeatureLevel::Advanced
        } else if profile.screen || profile.speakers > 0 || profile.lights {
            FeatureLevel::Basic
        } else {
            FeatureLevel::Unavailable
        };
        let mut local_workloads: Vec<String> = Vec::new();
        push_literal(&mut local_workloads, "Safety and actuator control");
        push_literal(&mut local_workloads, "Capability resolution");
        push_literal(&mut local_workloads, "Telemetry");
        push_literal(&mut local_workloads, "Deterministic skills");
        let rank = class.rank();
        if rank >= 1 {
            push_literal(&mut local_workloads, "Basic planning and short-term memory");
        }
        if rank >= 2 {
            push_literal(&mut local_workloads, "Local perception and StructureScan context");
        }
        if rank >= 3 {
            push_literal(&mut local_workloads, "Local model runtime eligible");
        }
        let mut edge_eligible: Vec<String> = Vec::new();
        if profile.network_connected {
            push_literal(&mut edge_eligible, "Large vision reasoning");
            push_literal(&mut edge_eligible, "Long-horizon planning");
            push_literal(&mut edge_eligible, "Learning analysis");
        }
        let mut disabled: Vec<String> = Vec::new();
        if rank < 2 {
            push_literal(&mut disabled, "Local model runtime");
        }
        if !profile.network_connected {
            push_literal(&mut disabled, "Edge Brain workloads");
        }
        proof {
            assert(texts(local_workloads@) =~= local_workloads_spec(class));
            assert(texts(edge_eligible@) =~= edge_eligible_spec(profile.network_connected));
            assert(texts(disabled@) =~= disabled_spec(class, profile.network_connected));
        }
        AdaptiveRuntimePlan {
            class,
            memory: MemCorePlan::allocate(profile, class),
            local_workloads,
            edge_eligible,
            disabled,
            sense_hopping,
            structure_scan,
            interaction,
        }
    }
}

/// A suggested hardware upgrade.
#[derive(Clone, Debug)]
pub struct UpgradeRecommendation {
    pub priority: u8,
    pub title: String,
    pub benefit: String,
    pub indicative_cost_usd: u32,
}

/// The plain values of a recommendation: priority, title, benefit, cost.
pub open spec fn upgrade_view(u: UpgradeRecommendation) -> (u8, Seq<char>, Seq<char>, u32) {
    (u.priority, u.title@, u.benefit@, u.indicative_cost_usd)
}

/// The upgrades a profile lacks, in priority order.
pub open spec fn upgrade_candidates(p: ProfileView) -> Seq<(u8, Seq<char>, Seq<char>, u32)> {
    (if p.ram_mb < 8192 {
        seq![(1u8, "Increase RAM to 8 GB"@, "Unlocks richer local memory and adaptive local perception eligibility."@, 40u32)]
    } else {
        seq![]
    }) + (if p.depth_cameras == 0 {
        seq![(2u8, "Add a depth camera"@, "Upgrades StructureScan and obstacle modelling when an adapter is available."@, 35u32)]
    } else {
        seq![]
    }) + (if !p.lidar {
        seq![(3u8, "Add a lidar or range sensor array"@, "Improves SenseHopping redundancy and navigation sensing."@, 45u32)]
    } else {
        seq![]
    })
}

/// The candidates that fit the budget (all of them without a budget), in order.
pub open spec fn within_budget(c: Seq<(u8, Seq<char>, Seq<char>, u32)>, budget: Option<u32>) -> Seq<(u8, Seq<char>, Seq<char>, u32)>
    decreases c.len(),
{
    if c.len() == 0 {
        seq![]
    } else {
        let rest = within_budget(c.drop_last(), budget);
        match budget {
            Some(b) => if c.last().3 <= b { rest.push(c.last()) } else { rest },
            None => rest.push(c.last()),
        }
    }
}

fn push_upgrade(
    v: &mut Vec<UpgradeRecommendation>,
    budget: Option<u32>,
    priority: u8,
    title: &str,
    benefit: &str,
    cost: u32,
)
    ensures
        final(v)@.map_values(|u: UpgradeRecommendation| upgrade_view(u)) == ({
            let old_views = old(v)@.map_values(|u: UpgradeRecommendation| upgrade_view(u));
            let fits = match budget { Some(b) => cost <= b, None => true };
            if fits { old_views.push((priority, title@, benefit@, cost)) } else { old_views }
        }),
{
    let fits = match budget {
        Some(b) => cost <= b,
        None => true,
    };
    if fits {
        v.push(UpgradeRecommendation { priority, title: owned(title), benefit: owned(benefit), indicative_cost_usd: cost });
        proof {
            assert(v@.map_values(|u: UpgradeRecommendation| upgrade_view(u)) =~= old(v)@.map_values(
                |u: UpgradeRecommendation| upgrade_view(u),
            ).push((priority, title@, benefit@, cost)));
        }
    }
}

/// Upgrades that would lift the profile, limited to those within the budget when one is given.
pub fn upgrade_advisor(profile: &HardwareProfile, budget_usd: Option<u32>) -> (r: Vec<UpgradeRecommendation>)
    ensures
        r@.map_values(|u: UpgradeRecommendation| upgrade_view(u)) == within_budget(upgrade_candidates(profile@), budget_usd),
{
    let mut r: Vec<UpgradeRecommendation> = Vec::new();
    let ghost c0 = upgrade_candidates(profile@);
    proof {
        reveal_with_fuel(within_budget, 4);
    }
    if profile.ram_mb < 8192 {
        push_upgrade(&mut r, budget_usd, 1, "Increase RAM to 8 GB", "Unlocks richer local memory and adaptive local perception eligibility.", 40);
    }
    if profile.depth_cameras == 0 {
        push_upgrade(&mut r, budget_usd, 2, "Add a depth camera", "Upgrades StructureScan and obstacle modelling when an adapter is available.", 35);
    }
    if !profile.lidar {
        push_upgrade(&mut r, budget_usd, 3, "Add a lidar or range sensor array", "Improves SenseHopping redundancy and navigation sensing.", 45);
    }
    proof {
        let a = if profile.ram_mb < 8192 { 1int } else { 0 };
        let b = if profile.depth_cameras == 0 { 1int } else { 0 };
        let c = if !profile.lidar { 1int } else { 0 };
        assert(c0.len() == a + b + c);
        if c0.len() >= 1 { assert(c0.subrange(0, 1).drop_last() =~= c0.subrange(0, 0)); }
        if c0.len() >= 2 { assert(c0.subrange(0, 2).drop_last() =~= c0.subrange(0, 1)); }
        if c0.len() >= 3 { assert(c0.subrange(0, 3).drop_last() =~= c0.subrange(0, 2)); }
        assert(c0.subrange(0, c0.len() as int) =~= c0);
    }
    r
}

/// The capabilities a profile declares: RGB and depth vision, lidar, IMU, wheeled
/// locomotion (for any motor) and a gripper.
pub open spec fn profile_capabilities(p: ProfileView) -> Set<Seq<char>> {
    Set::<Seq<char>>::empty()
        .union(if p.rgb_cameras > 0 { set!["vision.rgb"@] } else { Set::empty() })
        .union(if p.depth_cameras > 0 { set!["vision.depth"@] } else { Set::empty() })
        .union(if p.lidar { set!["sensing.lidar"@] } else { Set::empty() })
        .union(if p.imu { set!["sensing.imu"@] } else { Set::empty() })
        .union(if p.motors > 0 { set!["locomotion.wheeled"@] } else { Set::empty() })
        .union(if p.grippers > 0 { set!["manipulators.gripper"@] } else { Set::empty() })
}

/// Capabilities are never inferred beyond the hardware: a profile without depth
/// cameras never offers depth sensing, whatever RGB cameras or lidar it has.
pub proof fn law_depth_is_never_inferred(p: ProfileView)
    requires
        p.depth_cameras == 0,
    ensures
        !profile_capabilities(p).contains("vision.depth"@),
{
    reveal_strlit("vision.depth");
    reveal_strlit("vision.rgb");
    reveal_strlit("sensing.lidar");
    reveal_strlit("sensing.imu");
    reveal_strlit("locomotion.wheeled");
    reveal_strlit("manipulators.gripper");
    assert("vision.depth"@[7] != "vision.rgb"@[7]);
    assert("vision.depth"@[0] != "sensing.lidar"@[0]);
    assert("vision.depth"@[0] != "sensing.imu"@[0]);
    assert("vision.depth"@[0] != "locomotion.wheeled"@[0]);
    assert("vision.depth"@[0] != "manipulators.gripper"@[0]);
}

fn add_capability(set: &mut CapabilitySet, path: &str)
    requires
        forall|i: int| 0 <= i < path@.len() ==> !('A' <= #[trigger] path@[i] && path@[i] <= 'Z'),
    ensures
        final(set).as_set() == old(set).as_set().insert(path@),
{
    let c = Capability::new(path);
    proof {
        crate::text::lemma_lower_fixed(path@);
    }
    set.insert(c);
}

/// The capabilities a profile declares.
pub fn capabilities_from_profile(profile: &HardwareProfile) -> (s: CapabilitySet)
    ensures
        s.as_set() == profile_capabilities(profile@),
{
    proof {
        reveal_strlit("vision.rgb");
        reveal_strlit("vision.depth");
        reveal_strlit("sensing.lidar");
        reveal_strlit("sensing.imu");
        reveal_strlit("locomotion.wheeled");
        reveal_strlit("manipulators.gripper");
    }
    let mut s = CapabilitySet::new();
    if profile.rgb_cameras > 0 {
        add_capability(&mut s, "vision.rgb");
    }
    if profile.depth_cameras > 0 {
        add_capability(&mut s, "vision.depth");
    }
    if profile.lidar {
        add_capability(&mut s, "sensing.lidar");
    }
    if profile.imu {
        add_capability(&mut s, "sensing.imu");
    }
    if profile.motors > 0 {
        add_capability(&mut s, "locomotion.wheeled");
    }
    if profile.grippers > 0 {
        add_capability(&mut s, "manipulators.gripper");
    }
    proof {
        assert(s.as_set() =~= profile_capabilities(profile@));
    }
    s
}

/// The capability manifest of a profiled robot.
pub fn manifest_from_profile(profile: &HardwareProfile) -> (m: CapabilityManifest)
    ensures
        m.robot_id@ == "profiled-robot"@,
        m.name@ == profile.name@,
        m.architecture@ == profile.architecture@,
        m.capabilities.as_set() == profile_capabilities(profile@),
{
    CapabilityManifest {
        robot_id: owned("profiled-robot"),
        name: profile.name.clone(),
        architecture: profile.architecture.clone(),
        capabilities: capabilities_from_profile(profile),
    }
}

} // verus!
