//! Proving Ground evidence: validation levels, injected faults, trial bookkeeping
//! and the seeded generator behind WorldForge worlds.
//!
//! A passing virtual trial is evidence, never a substitute for physics,
//! hardware-in-the-loop or a physical robot demonstration.
use vstd::prelude::*;
use crate::text::{chars_of, decimal, owned, push_char, push_decimal, push_str};

verus! {

#[derive(Clone, Copy, Debug, PartialEq, Eq, Structural, PartialOrd, Ord)]
pub enum ValidationLevel {
    L0SoftwareVerified,
    L1VirtualHardwareVerified,
    L2PhysicsVerified,
    L3AdversariallyVerified,
    L4HilVerified,
    L5RobotVerified,
}

/// The position of a level in the validation ladder.
pub open spec fn level_rank(l: ValidationLevel) -> nat {
    match l {
        ValidationLevel::L0SoftwareVerified => 0,
        ValidationLevel::L1VirtualHardwareVerified => 1,
        ValidationLevel::L2PhysicsVerified => 2,
        ValidationLevel::L3AdversariallyVerified => 3,
        ValidationLevel::L4HilVerified => 4,
        ValidationLevel::L5RobotVerified => 5,
    }
}

/// The label a report gives a level.
pub open spec fn level_label(l: ValidationLevel) -> Seq<char> {
    match l {
        ValidationLevel::L0SoftwareVerified => "L0 — SOFTWARE VERIFIED"@,
        ValidationLevel::L1VirtualHardwareVerified => "L1 — VIRTUAL HARDWARE VERIFIED"@,
        ValidationLevel::L2PhysicsVerified => "L2 — PHYSICS VERIFIED"@,
        ValidationLevel::L3AdversariallyVerified => "L3 — ADVERSARIALLY VERIFIED"@,
        ValidationLevel::L4HilVerified => "L4 — HIL VERIFIED"@,
        ValidationLevel::L5RobotVerified => "L5 — ROBOT VERIFIED"@,
    }
}

impl ValidationLevel {
    pub fn label(self) -> (l: &'static str)
        ensures
            l@ == level_label(self),
            l@ == match self {
                ValidationLevel::L0SoftwareVerified => "L0 — SOFTWARE VERIFIED"@,
                ValidationLevel::L1VirtualHardwareVerified => "L1 — VIRTUAL HARDWARE VERIFIED"@,
                ValidationLevel::L2PhysicsVerified => "L2 — PHYSICS VERIFIED"@,
                ValidationLevel::L3AdversariallyVerified => "L3 — ADVERSARIALLY VERIFIED"@,
                ValidationLevel::L4HilVerified => "L4 — HIL VERIFIED"@,
                ValidationLevel::L5RobotVerified => "L5 — ROBOT VERIFIED"@,
            },
    {
        match self {
            ValidationLevel::L0SoftwareVerified => "L0 — SOFTWARE VERIFIED",
            ValidationLevel::L1VirtualHardwareVerified => "L1 — VIRTUAL HARDWARE VERIFIED",
            ValidationLevel::L2PhysicsVerified => "L2 — PHYSICS VERIFIED",
            ValidationLevel::L3AdversariallyVerified => "L3 — ADVERSARIALLY VERIFIED",
            ValidationLevel::L4HilVerified => "L4 — HIL VERIFIED",
            ValidationLevel::L5RobotVerified => "L5 — ROBOT VERIFIED",
        }
    }

    /// The position of the level in the validation ladder.
    pub fn rank(self) -> (r: u8)
        ensures
            r == level_rank(self),
    {
        match self {
            ValidationLevel::L0SoftwareVerified => 0,
            ValidationLevel::L1VirtualHardwareVerified => 1,
            ValidationLevel::L2PhysicsVerified => 2,
            ValidationLevel::L3AdversariallyVerified => 3,
            ValidationLevel::L4HilVerified => 4,
            ValidationLevel::L5RobotVerified => 5,
        }
    }
}

#[derive(Clone, Copy, Debug, PartialEq, Eq, Structural)]
pub enum ValidationResult {
    Passed,
    NotRun,
}

#[derive(Clone, Debug)]
pub struct ValidationEvidence {
    pub level: ValidationLevel,
    pub result: ValidationResult,
    pub summary: String,
}

#[derive(Clone, Copy, Debug, PartialEq, Eq, Structural)]
pub enum InjectedFault {
    NoFault,
    DepthCameraFailure,
    Darkness,
    LidarNoise,
    ServoDisappears,
    ServoOverheats,
    ServoResponseDelayed,
    LowBattery,
}

impl InjectedFault {
    pub fn label(self) -> (l: &'static str)
        ensures
            l@ == match self {
                InjectedFault::NoFault => "none"@,
                InjectedFault::DepthCameraFailure => "depth-camera-failure"@,
                InjectedFault::Darkness => "low-light"@,
                InjectedFault::LidarNoise => "lidar-noise"@,
                InjectedFault::ServoDisappears => "servo-disappears"@,
                InjectedFault::ServoOverheats => "servo-overheats"@,
                InjectedFault::ServoResponseDelayed => "servo-response-delayed-400ms"@,
                InjectedFault::LowBattery => "low-battery"@,
            },
    {
        match self {
            InjectedFault::NoFault => "none",
            InjectedFault::DepthCameraFailure => "depth-camera-failure",
            InjectedFault::Darkness => "low-light",
            InjectedFault::LidarNoise => "lidar-noise",
            InjectedFault::ServoDisappears => "servo-disappears",
            InjectedFault::ServoOverheats => "servo-overheats",
            InjectedFault::ServoResponseDelayed => "servo-response-delayed-400ms",
            InjectedFault::LowBattery => "low-battery",
        }
    }

    /// Whether the fault degrades sensing rather than actuation or power.
    pub fn is_sensing_fault(self) -> (b: bool)
        ensures
            b == (self == InjectedFault::DepthCameraFailure || self == InjectedFault::Darkness
                || self == InjectedFault::LidarNoise),
    {
        match self {
            InjectedFault::DepthCameraFailure | InjectedFault::Darkness | InjectedFault::LidarNoise => true,
            _ => false,
        }
    }
}

/// The fault injected into a trial, cycling through the faults with the trial
/// index plus the low 32 bits of the world seed.
pub open spec fn fault_schedule(index: u32, seed: u64) -> InjectedFault {
    let k = (index + seed % 0x1_0000_0000) % 11;
    if k == 0 {
        InjectedFault::DepthCameraFailure
    } else if k == 1 {
        InjectedFault::Darkness
    } else if k == 2 {
        InjectedFault::LidarNoise
    } else if k == 3 {
        InjectedFault::ServoDisappears
    } else if k == 4 {
        InjectedFault::ServoOverheats
    } else if k == 5 {
        InjectedFault::ServoResponseDelayed
    } else if k == 6 {
        InjectedFault::LowBattery
    } else {
        InjectedFault::NoFault
    }
}

/// The fault for trial `index` of a world generated from `seed`.
pub fn fault_for(index: u32, seed: u64) -> (f: InjectedFault)
    requires
        index + seed % 0x1_0000_0000 <= u32::MAX,
    ensures
        f == fault_schedule(index, seed),
{
    let low = seed as u32;
    assert(low == seed % 0x1_0000_0000) by (bit_vector)
        requires
            low == seed as u32,
    ;
    match (index + low) % 11 {
        0 => InjectedFault::DepthCameraFailure,
        1 => InjectedFault::Darkness,
        2 => InjectedFault::LidarNoise,
        3 => InjectedFault::ServoDisappears,
        4 => InjectedFault::ServoOverheats,
        5 => InjectedFault::ServoResponseDelayed,
        6 => InjectedFault::LowBattery,
        _ => InjectedFault::NoFault,
    }
}

#[derive(Clone, Copy, Debug, PartialEq, Eq, Structural)]
pub enum TrialOutcome {
    Success,
    SafeAbort,
    Failure,
}

/// The simulated runtime recorded for trial `number`.
pub fn trial_runtime_ms(number: u32) -> (ms: u32)
    ensures
        ms == 12_000 + (number % 9) * 310,
{
    12_000 + (number % 9) * 310
}

/// How many outcomes equal `which`.
pub open spec fn outcome_count(outcomes: Seq<TrialOutcome>, which: TrialOutcome) -> nat
    decreases outcomes.len(),
{
    if outcomes.len() == 0 {
        0
    } else {
        outcome_count(outcomes.drop_last(), which) + if outcomes.last() == which { 1nat } else { 0nat }
    }
}

/// The sum of a list of counts.
pub open spec fn total(values: Seq<u32>) -> nat
    decreases values.len(),
{
    if values.len() == 0 {
        0
    } else {
        total(values.drop_last()) + values.last() as nat
    }
}

proof fn lemma_total_prefix(values: Seq<u32>, i: int)
    requires
        0 <= i <= values.len(),
    ensures
        total(values.take(i)) <= total(values),
    decreases values.len() - i,
{
    if i < values.len() {
        lemma_total_prefix(values, i + 1);
        assert(values.take(i + 1).drop_last() =~= values.take(i));
    } else {
        assert(values.take(i) =~= values);
    }
}

/// The number of trials with outcome `which`.
pub fn count_outcomes(outcomes: &[TrialOutcome], which: TrialOutcome) -> (n: usize)
    ensures
        n == outcome_count(outcomes@, which),
{
    let mut n: usize = 0;
    let mut i: usize = 0;
    while i < outcomes.len()
        invariant
            i <= outcomes@.len(),
            n == outcome_count(outcomes@.take(i as int), which),
            n <= i,
        decreases outcomes@.len() - i,
    {
        proof {
            assert(outcomes@.take(i + 1).drop_last() =~= outcomes@.take(i as int));
        }
        if outcomes[i] == which {
            n = n + 1;
        }
        i = i + 1;
    }
    proof {
        assert(outcomes@.take(outcomes@.len() as int) =~= outcomes@);
    }
    n
}

/// The sum of the unsafe actions of all trials.
pub fn total_unsafe_actions(counts: &[u32]) -> (n: u32)
    requires
        total(counts@) <= u32::MAX,
    ensures
        n == total(counts@),
{
    let mut n: u32 = 0;
    let mut i: usize = 0;
    while i < counts.len()
        invariant
            i <= counts@.len(),
            n == total(counts@.take(i as int)),
            total(counts@) <= u32::MAX,
        decreases counts@.len() - i,
    {
        proof {
            assert(counts@.take(i + 1).drop_last() =~= counts@.take(i as int));
            lemma_total_prefix(counts@, i + 1);
        }
        n = n + counts[i];
        i = i + 1;
    }
    proof {
        assert(counts@.take(counts@.len() as int) =~= counts@);
    }
    n
}

/// The mean simulated runtime, rounded down; zero without trials.
pub fn average_runtime_ms(runtimes: &[u32]) -> (ms: u32)
    requires
        total(runtimes@) <= u32::MAX,
        runtimes@.len() <= u32::MAX,
    ensures
        ms == if runtimes@.len() == 0 { 0 } else { total(runtimes@) / runtimes@.len() },
{
    if runtimes.len() == 0 {
        return 0;
    }
    let sum = total_unsafe_actions(runtimes);
    sum / (runtimes.len() as u32)
}

/// Some evidence at the level of rank `r` passed.
pub open spec fn passed_at(evidence: Seq<ValidationEvidence>, r: nat) -> bool {
    exists|i: int|
        0 <= i < evidence.len() && #[trigger] evidence[i].result == ValidationResult::Passed
            && level_rank(evidence[i].level) == r
}

/// The level of a rank in the validation ladder (ranks above 5 are L5).
pub open spec fn level_of_rank(r: nat) -> ValidationLevel {
    if r == 0 {
        ValidationLevel::L0SoftwareVerified
    } else if r == 1 {
        ValidationLevel::L1VirtualHardwareVerified
    } else if r == 2 {
        ValidationLevel::L2PhysicsVerified
    } else if r == 3 {
        ValidationLevel::L3AdversariallyVerified
    } else if r == 4 {
        ValidationLevel::L4HilVerified
    } else {
        ValidationLevel::L5RobotVerified
    }
}

/// Levels are cumulative: the rank earned is the highest one whose passed
/// evidence is unbroken from L0, and 0 when L0 itself did not pass.
pub open spec fn earned_rank(evidence: Seq<ValidationEvidence>) -> nat {
    if !passed_at(evidence, 0) || !passed_at(evidence, 1) {
        0
    } else if !passed_at(evidence, 2) {
        1
    } else if !passed_at(evidence, 3) {
        2
    } else if !passed_at(evidence, 4) {
        3
    } else if !passed_at(evidence, 5) {
        4
    } else {
        5
    }
}

/// The level a body of evidence earns.
pub open spec fn earned_level(evidence: Seq<ValidationEvidence>) -> ValidationLevel {
    level_of_rank(earned_rank(evidence))
}

proof fn lemma_passed_at_extend(evidence: Seq<ValidationEvidence>, i: int, r: nat)
    requires
        0 <= i < evidence.len(),
    ensures
        passed_at(evidence.take(i + 1), r) == (passed_at(evidence.take(i), r) || (
        evidence[i].result == ValidationResult::Passed && level_rank(evidence[i].level) == r)),
{
    let longer = evidence.take(i + 1);
    let shorter = evidence.take(i);
    if passed_at(shorter, r) {
        let j = choose|j: int|
            0 <= j < shorter.len() && #[trigger] shorter[j].result == ValidationResult::Passed
                && level_rank(shorter[j].level) == r;
        assert(longer[j] == shorter[j]);
    }
    if evidence[i].result == ValidationResult::Passed && level_rank(evidence[i].level) == r {
        assert(longer[i] == evidence[i]);
    }
    if passed_at(longer, r) {
        let j = choose|j: int|
            0 <= j < longer.len() && #[trigger] longer[j].result == ValidationResult::Passed
                && level_rank(longer[j].level) == r;
        if j < i {
            assert(shorter[j] == longer[j]);
        }
    }
}

/// The highest validation level a report has earned. Levels are cumulative: a
/// level counts only when every level below it has passed evidence too, so no
/// level above a level lacking passed evidence is ever returned.
pub fn highest_earned(evidence: &[ValidationEvidence]) -> (l: ValidationLevel)
    ensures
        l == earned_level(evidence@),
        forall|r: nat| 0 < level_rank(l) && r <= level_rank(l) ==> passed_at(evidence@, r),
        level_rank(l) < 5 && (level_rank(l) > 0 || passed_at(evidence@, 0)) ==> !passed_at(
            evidence@,
            level_rank(l) + 1,
        ),
{
    let mut p0 = false;
    let mut p1 = false;
    let mut p2 = false;
    let mut p3 = false;
    let mut p4 = false;
    let mut p5 = false;
    let mut i: usize = 0;
    while i < evidence.len()
        invariant
            i <= evidence@.len(),
            p0 == passed_at(evidence@.take(i as int), 0),
            p1 == passed_at(evidence@.take(i as int), 1),
            p2 == passed_at(evidence@.take(i as int), 2),
            p3 == passed_at(evidence@.take(i as int), 3),
            p4 == passed_at(evidence@.take(i as int), 4),
            p5 == passed_at(evidence@.take(i as int), 5),
        decreases evidence@.len() - i,
    {
        proof {
            lemma_passed_at_extend(evidence@, i as int, 0);
            lemma_passed_at_extend(evidence@, i as int, 1);
            lemma_passed_at_extend(evidence@, i as int, 2);
            lemma_passed_at_extend(evidence@, i as int, 3);
            lemma_passed_at_extend(evidence@, i as int, 4);
            lemma_passed_at_extend(evidence@, i as int, 5);
        }
        let e = &evidence[i];
        if e.result == ValidationResult::Passed {
            match e.level {
                ValidationLevel::L0SoftwareVerified => { p0 = true; },
                ValidationLevel::L1VirtualHardwareVerified => { p1 = true; },
                ValidationLevel::L2PhysicsVerified => { p2 = true; },
                ValidationLevel::L3AdversariallyVerified => { p3 = true; },
                ValidationLevel::L4HilVerified => { p4 = true; },
                ValidationLevel::L5RobotVerified => { p5 = true; },
            }
        }
        i = i + 1;
    }
    proof {
        assert(evidence@.take(evidence@.len() as int) =~= evidence@);
    }
    if !p0 || !p1 {
        ValidationLevel::L0SoftwareVerified
    } else if !p2 {
        ValidationLevel::L1VirtualHardwareVerified
    } else if !p3 {
        ValidationLevel::L2PhysicsVerified
    } else if !p4 {
        ValidationLevel::L3AdversariallyVerified
    } else if !p5 {
        ValidationLevel::L4HilVerified
    } else {
        ValidationLevel::L5RobotVerified
    }
}

/// The evidence a local Proving Ground run records: software verification always
/// passes, virtual-hardware verification passes only without unsafe actions, and
/// the physics, adversarial, hardware-in-the-loop and robot levels are not run.
pub open spec fn standard_evidence_levels(no_unsafe_actions: bool) -> Seq<(ValidationLevel, ValidationResult)> {
    seq![
        (ValidationLevel::L0SoftwareVerified, ValidationResult::Passed),
        (ValidationLevel::L1VirtualHardwareVerified, if no_unsafe_actions { ValidationResult::Passed } else { ValidationResult::NotRun }),
        (ValidationLevel::L2PhysicsVerified, ValidationResult::NotRun),
        (ValidationLevel::L3AdversariallyVerified, ValidationResult::NotRun),
        (ValidationLevel::L4HilVerified, ValidationResult::NotRun),
        (ValidationLevel::L5RobotVerified, ValidationResult::NotRun),
    ]
}

pub open spec fn evidence_levels(evidence: Seq<ValidationEvidence>) -> Seq<(ValidationLevel, ValidationResult)> {
    evidence.map_values(|e: ValidationEvidence| (e.level, e.result))
}

pub open spec fn evidence_summaries(evidence: Seq<ValidationEvidence>) -> Seq<Seq<char>> {
    evidence.map_values(|e: ValidationEvidence| e.summary@)
}

fn push_evidence(v: &mut Vec<ValidationEvidence>, level: ValidationLevel, result: ValidationResult, summary: &str)
    ensures
        evidence_levels(final(v)@) == evidence_levels(old(v)@).push((level, result)),
        evidence_summaries(final(v)@) == evidence_summaries(old(v)@).push(summary@),
{
    v.push(ValidationEvidence { level, result, summary: owned(summary) });
    proof {
        assert(evidence_levels(v@) =~= evidence_levels(old(v)@).push((level, result)));
        assert(evidence_summaries(v@) =~= evidence_summaries(old(v)@).push(summary@));
    }
}

/// The evidence list of a local Proving Ground run.
pub fn standard_evidence(no_unsafe_actions: bool) -> (v: Vec<ValidationEvidence>)
    ensures
        evidence_levels(v@) == standard_evidence_levels(no_unsafe_actions),
        evidence_summaries(v@) == seq![
            "Runtime, contract, schema, state-machine, and Proving Ground tests are exercised locally."@,
            "Each trial used the adapter-facing VirtualRobotBus; exact injected device conditions are retained in its trial records."@,
            "Gazebo Harmonic headless evidence has not been recorded by this local run."@,
            "Adversarial virtual-hardware trials completed, but L3 cannot be earned until the L2 Gazebo physics prerequisite is executed and recorded."@,
            "No real sensor, controller, or robot component was connected."@,
            "No physical robot demonstration was performed."@
        ],
{
    let mut v: Vec<ValidationEvidence> = Vec::new();
    proof {
        assert(evidence_levels(v@) =~= Seq::empty());
        assert(evidence_summaries(v@) =~= Seq::empty());
    }
    push_evidence(&mut v, ValidationLevel::L0SoftwareVerified, ValidationResult::Passed,
        "Runtime, contract, schema, state-machine, and Proving Ground tests are exercised locally.");
    push_evidence(&mut v, ValidationLevel::L1VirtualHardwareVerified,
        if no_unsafe_actions { ValidationResult::Passed } else { ValidationResult::NotRun },
        "Each trial used the adapter-facing VirtualRobotBus; exact injected device conditions are retained in its trial records.");
    push_evidence(&mut v, ValidationLevel::L2PhysicsVerified, ValidationResult::NotRun,
        "Gazebo Harmonic headless evidence has not been recorded by this local run.");
    push_evidence(&mut v, ValidationLevel::L3AdversariallyVerified, ValidationResult::NotRun,
        "Adversarial virtual-hardware trials completed, but L3 cannot be earned until the L2 Gazebo physics prerequisite is executed and recorded.");
    push_evidence(&mut v, ValidationLevel::L4HilVerified, ValidationResult::NotRun,
        "No real sensor, controller, or robot component was connected.");
    push_evidence(&mut v, ValidationLevel::L5RobotVerified, ValidationResult::NotRun,
        "No physical robot demonstration was performed.");
    proof {
        assert(evidence_levels(v@) =~= standard_evidence_levels(no_unsafe_actions));
    }
    v
}

/// A local Proving Ground run earns L1 exactly when no trial took an unsafe
/// action, and never more: physics, hardware-in-the-loop and robot evidence are
/// not produced locally.
pub proof fn law_local_runs_earn_at_most_virtual_hardware(evidence: Seq<ValidationEvidence>, no_unsafe_actions: bool)
    requires
        evidence_levels(evidence) == standard_evidence_levels(no_unsafe_actions),
    ensures
        earned_level(evidence) == if no_unsafe_actions {
            ValidationLevel::L1VirtualHardwareVerified
        } else {
            ValidationLevel::L0SoftwareVerified
        },
{
    let levels = evidence_levels(evidence);
    assert(levels.len() == 6);
    assert(evidence.len() == 6);
    assert forall|i: int| 0 <= i < 6 implies #[trigger] evidence[i].level == levels[i].0 && evidence[i].result == levels[i].1 by {}
    assert(evidence[0].result == ValidationResult::Passed && level_rank(evidence[0].level) == 0);
    if no_unsafe_actions {
        assert(evidence[1].result == ValidationResult::Passed && level_rank(evidence[1].level) == 1);
        assert(!passed_at(evidence, 2)) by {
            if passed_at(evidence, 2) {
                let j = choose|j: int|
                    0 <= j < evidence.len() && #[trigger] evidence[j].result == ValidationResult::Passed
                        && level_rank(evidence[j].level) == 2;
                assert(levels[j].0 == evidence[j].level);
            }
        }
    } else {
        assert(!passed_at(evidence, 1)) by {
            if passed_at(evidence, 1) {
                let j = choose|j: int|
                    0 <= j < evidence.len() && #[trigger] evidence[j].result == ValidationResult::Passed
                        && level_rank(evidence[j].level) == 1;
                assert(levels[j].0 == evidence[j].level);
            }
        }
    }
}

/// The seeded generator behind WorldForge: each world parameter is drawn from the
/// next state of a 64-bit linear congruential generator.
pub struct WorldForge;

/// One step of the generator: multiply and add, both modulo 2^64.
pub open spec fn lcg_next(state: u64) -> u64 {
    let m = (state as nat * 6_364_136_223_846_793_005nat) % 0x1_0000_0000_0000_0000nat;
    ((m + 1) % 0x1_0000_0000_0000_0000nat) as u64
}

impl WorldForge {
    /// The next generator state.
    pub fn next_state(state: u64) -> (s: u64)
        ensures
            s == lcg_next(state),
    {
        state.wrapping_mul(6_364_136_223_846_793_005).wrapping_add(1)
    }

    /// The high 31 bits of a state, the raw sample a world parameter is scaled from.
    pub fn sample_bits(state: u64) -> (b: u32)
        ensures
            b == state / 0x2_0000_0000,
    {
        let shifted = state >> 33;
        assert(shifted == state / 0x2_0000_0000 && shifted < 0x8000_0000) by (bit_vector)
            requires
                shifted == state >> 33,
        ;
        shifted as u32
    }
}

/// The Proving Ground: runs seeded trials of a skill against injected faults and
/// certifies the evidence.
pub struct ProvingGround;


/// The text with every two-character sequence `\n` (a backslash and an `n`) turned
/// into a line break, scanning from the front (`str::replace("\\n", "\n")`).
pub open spec fn unescape_newlines(s: Seq<char>) -> Seq<char>
    decreases s.len(),
{
    if s.len() == 0 {
        seq![]
    } else if s.len() >= 2 && s[0] == '\\' && s[1] == 'n' {
        seq!['\n'] + unescape_newlines(s.subrange(2, s.len() as int))
    } else {
        seq![s[0]] + unescape_newlines(s.drop_first())
    }
}

fn unescape_newlines_exec(s: &[char]) -> (r: String)
    ensures
        r@ == unescape_newlines(s@),
{
    let mut out = String::new();
    let n = s.len();
    let mut i: usize = 0;
    proof {
        assert(s@.subrange(0, n as int) =~= s@);
    }
    while i < n
        invariant
            n == s@.len(),
            i <= n,
            out@ + unescape_newlines(s@.subrange(i as int, n as int)) == unescape_newlines(s@),
        decreases n - i,
    {
        let ghost rest = s@.subrange(i as int, n as int);
        let ghost before = out@;
        if i + 1 < n && s[i] == '\\' && s[i + 1] == 'n' {
            proof {
                assert(rest[0] == '\\' && rest[1] == 'n');
                assert(rest.subrange(2, rest.len() as int) =~= s@.subrange(i + 2, n as int));
            }
            push_char(&mut out, '\n');
            i = i + 2;
            proof {
                assert(before + (seq!['\n'] + unescape_newlines(s@.subrange(i as int, n as int)))
                    =~= out@ + unescape_newlines(s@.subrange(i as int, n as int)));
            }
        } else {
            proof {
                assert(rest[0] == s@[i as int]);
                assert(rest.drop_first() =~= s@.subrange(i + 1, n as int));
            }
            push_char(&mut out, s[i]);
            i = i + 1;
            proof {
                assert(before + (seq![s@[i - 1]] + unescape_newlines(s@.subrange(i as int, n as int)))
                    =~= out@ + unescape_newlines(s@.subrange(i as int, n as int)));
            }
        }
    }
    proof {
        assert(s@.subrange(n as int, n as int) =~= Seq::<char>::empty());
        assert(out@ + Seq::<char>::empty() =~= out@);
    }
    out
}

/// The figures of a certification report. Floating-point figures arrive already
/// formatted: the success rate in percent with one decimal, the door-width error
/// in metres with three, and the learning rates in percent with one.
#[derive(Clone, Debug)]
pub struct ReportFigures {
    pub skill: String,
    pub skill_version: String,
    pub robot_profile: String,
    pub seed: u64,
    pub trials: u64,
    pub successes: u64,
    pub success_rate: String,
    pub safe_aborts: u64,
    pub safety_violations: u32,
    pub average_runtime_ms: u32,
    pub sense_recovered: u32,
    pub sense_failure_trials: u32,
    pub door_width_error_m: Option<String>,
    pub randomized_success: Option<String>,
    pub altered_geometry_success: Option<String>,
    pub safe_behavior: Option<String>,
}

/// The word a report gives a validation result.
pub open spec fn result_word(r: ValidationResult) -> Seq<char> {
    match r {
        ValidationResult::Passed => "PASS"@,
        ValidationResult::NotRun => "NOT RUN"@,
    }
}

/// One evidence line per entry, in order, with escaped line ends.
pub open spec fn evidence_lines(evidence: Seq<ValidationEvidence>) -> Seq<char>
    decreases evidence.len(),
{
    if evidence.len() == 0 {
        seq![]
    } else {
        let e = evidence.last();
        evidence_lines(evidence.drop_last()) + "- **"@ + level_label(e.level) + " — "@ + result_word(e.result)
            + ":** "@ + e.summary@ + "\\n"@
    }
}

/// A benchmark line when its figure was measured.
pub open spec fn optional_line(figure: Option<String>, before: Seq<char>, after: Seq<char>) -> Seq<char> {
    match figure {
        Some(v) => before + v@ + after,
        None => seq![],
    }
}

/// The report up to the evidence: identity, then the results table.
pub open spec fn report_head(f: ReportFigures) -> Seq<char> {
    "# NEXUS PROVING GROUND\\n\\n**Skill:** "@ + f.skill@ + "@"@ + f.skill_version@ + "  \\n**Robot profile:** "@
        + f.robot_profile@ + "  \\n**WorldForge seed:** "@ + decimal(f.seed as nat)
        + "  \\n\\n## Results\\n\\n| Metric | Result |\\n| --- | --- |\\n| Trials | "@ + decimal(f.trials as nat)
        + " |\\n| Success | "@ + decimal(f.successes as nat) + " / "@ + decimal(f.trials as nat) + " ("@
        + f.success_rate@ + "%) |\\n| Safe aborts | "@ + decimal(f.safe_aborts as nat)
        + " |\\n| Safety violations | "@ + decimal(f.safety_violations as nat)
        + " |\\n| Average simulated runtime | "@ + decimal(f.average_runtime_ms as nat)
        + " ms |\\n\\n## Validation evidence\\n\\n"@
}

/// The benchmark section of the report.
pub open spec fn report_benchmarks(f: ReportFigures) -> Seq<char> {
    "\\n## Benchmarks\\n\\n"@ + "- SenseHopping recovery: "@ + decimal(f.sense_recovered as nat) + " / "@
        + decimal(f.sense_failure_trials as nat) + " fault trials\\n"@
        + optional_line(f.door_width_error_m, "- StructureScan door-width MAE: "@, " m\\n"@)
        + optional_line(f.randomized_success, "- Active Learning randomized-door success: "@, "%\\n"@)
        + optional_line(f.altered_geometry_success, "- Active Learning altered-geometry success: "@, "%\\n"@)
        + optional_line(f.safe_behavior, "- Active Learning safe behavior: "@, "%\\n"@)
}

/// The closing section: physical validation has not been performed.
pub open spec fn report_physical() -> Seq<char> {
    "\\n## Physical validation\\n\\n**NOT YET PERFORMED.** Virtual hardware and deterministic world tests do not prove motor torque, mechanical backlash, calibration, thermal behavior, battery runtime, real sensor behavior, cable faults, wheel slip, collision forces, manufacturing tolerances, emergency-stop hardware, or human/robot interaction.\\n"@
}

/// The report before its escaped line ends are turned into line breaks.
pub open spec fn report_raw(f: ReportFigures, evidence: Seq<ValidationEvidence>) -> Seq<char> {
    report_head(f) + evidence_lines(evidence) + report_benchmarks(f) + report_physical()
}

fn push_optional_line(s: &mut String, figure: &Option<String>, before: &str, after: &str)
    ensures
        final(s)@ == old(s)@ + optional_line(*figure, before@, after@),
{
    match figure {
        Some(v) => {
            push_str(s, before);
            push_str(s, v.as_str());
            push_str(s, after);
            proof {
                assert(final(s)@ =~= old(s)@ + optional_line(*figure, before@, after@));
            }
        },
        None => {
            proof {
                assert(s@ =~= old(s)@ + optional_line(*figure, before@, after@));
            }
        },
    }
}

/// The Markdown certification report: skill, robot profile and WorldForge seed;
/// trial count, successes, safe aborts, safety violations and average runtime; one
/// line per level of evidence, PASS or NOT RUN; the benchmarks; and the statement
/// that physical validation has not been performed. Every `\n` written as two
/// characters, in the report's own text or in a summary or name, becomes a line break.
pub fn render_report(f: &ReportFigures, evidence: &[ValidationEvidence]) -> (s: String)
    ensures
        s@ == unescape_newlines(report_raw(*f, evidence@)),
{
    let mut r = String::new();
    push_str(&mut r, "# NEXUS PROVING GROUND\\n\\n**Skill:** ");
    push_str(&mut r, f.skill.as_str());
    push_str(&mut r, "@");
    push_str(&mut r, f.skill_version.as_str());
    push_str(&mut r, "  \\n**Robot profile:** ");
    push_str(&mut r, f.robot_profile.as_str());
    push_str(&mut r, "  \\n**WorldForge seed:** ");
    push_decimal(&mut r, f.seed as u128);
    push_str(&mut r, "  \\n\\n## Results\\n\\n| Metric | Result |\\n| --- | --- |\\n| Trials | ");
    push_decimal(&mut r, f.trials as u128);
    push_str(&mut r, " |\\n| Success | ");
    push_decimal(&mut r, f.successes as u128);
    push_str(&mut r, " / ");
    push_decimal(&mut r, f.trials as u128);
    push_str(&mut r, " (");
    push_str(&mut r, f.success_rate.as_str());
    push_str(&mut r, "%) |\\n| Safe aborts | ");
    push_decimal(&mut r, f.safe_aborts as u128);
    push_str(&mut r, " |\\n| Safety violations | ");
    push_decimal(&mut r, f.safety_violations as u128);
    push_str(&mut r, " |\\n| Average simulated runtime | ");
    push_decimal(&mut r, f.average_runtime_ms as u128);
    push_str(&mut r, " ms |\\n\\n## Validation evidence\\n\\n");
    proof {
        assert(r@ =~= report_head(*f));
    }
    let ghost head = r@;
    let mut i: usize = 0;
    proof {
        assert(evidence@.take(0) =~= Seq::<ValidationEvidence>::empty());
        assert(r@ =~= head + evidence_lines(evidence@.take(0)));
    }
    while i < evidence.len()
        invariant
            i <= evidence@.len(),
            r@ == head + evidence_lines(evidence@.take(i as int)),
        decreases evidence@.len() - i,
    {
        proof {
            assert(evidence@.take(i + 1).drop_last() =~= evidence@.take(i as int));
            assert(evidence@.take(i + 1).last() == evidence@[i as int]);
        }
        let e = &evidence[i];
        push_str(&mut r, "- **");
        push_str(&mut r, e.level.label());
        push_str(&mut r, " — ");
        let word = match e.result {
            ValidationResult::Passed => "PASS",
            ValidationResult::NotRun => "NOT RUN",
        };
        push_str(&mut r, word);
        push_str(&mut r, ":** ");
        push_str(&mut r, e.summary.as_str());
        push_str(&mut r, "\\n");
        i = i + 1;
        proof {
            assert(r@ =~= head + evidence_lines(evidence@.take(i as int)));
        }
    }
    proof {
        assert(evidence@.take(evidence@.len() as int) =~= evidence@);
    }
    let ghost with_evidence = r@;
    push_str(&mut r, "\\n## Benchmarks\\n\\n");
    push_str(&mut r, "- SenseHopping recovery: ");
    push_decimal(&mut r, f.sense_recovered as u128);
    push_str(&mut r, " / ");
    push_decimal(&mut r, f.sense_failure_trials as u128);
    push_str(&mut r, " fault trials\\n");
    push_optional_line(&mut r, &f.door_width_error_m, "- StructureScan door-width MAE: ", " m\\n");
    push_optional_line(&mut r, &f.randomized_success, "- Active Learning randomized-door success: ", "%\\n");
    push_optional_line(&mut r, &f.altered_geometry_success, "- Active Learning altered-geometry success: ", "%\\n");
    push_optional_line(&mut r, &f.safe_behavior, "- Active Learning safe behavior: ", "%\\n");
    proof {
        assert(r@ =~= with_evidence + report_benchmarks(*f));
    }
    push_str(&mut r, "\\n## Physical validation\\n\\n**NOT YET PERFORMED.** Virtual hardware and deterministic world tests do not prove motor torque, mechanical backlash, calibration, thermal behavior, battery runtime, real sensor behavior, cable faults, wheel slip, collision forces, manufacturing tolerances, emergency-stop hardware, or human/robot interaction.\\n");
    proof {
        assert(r@ =~= report_raw(*f, evidence@));
    }
    let cs = chars_of(r.as_str());
    unescape_newlines_exec(cs.as_slice())
}

} // verus!
