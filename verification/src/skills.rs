//! The skill registry (built-in and locally installed skills) and the
//! deterministic task planner.
use vstd::prelude::*;
use crate::domain::{missing_spec, CapabilityManifest, CapabilityQuery, Compatibility, SafetyState, TaskGraph, TaskNode};
use crate::reliable::{builtin_contract, is_builtin_contract, same_contract, SkillContract};
use crate::text::{
    ascii_lower, chars_of, clone_texts, contains_text, lines, lines_exec, owned, slice_chars, starts_with,
    starts_with_exec, str_contains, string_of, strs, texts, to_ascii_lowercase, trim, trim_exec,
};
use crate::textmap::{strictly_sorted, TextMap, TextSet};

verus! {

/// A skill as the registry knows it.
#[derive(Clone, Debug)]
pub struct SkillManifest {
    pub name: String,
    pub version: String,
    pub description: String,
    pub requires: Vec<String>,
    pub permissions: Vec<String>,
    pub contract: SkillContract,
}

/// Why the registry refused a request.
#[derive(Clone, Debug, PartialEq, Eq)]
pub enum RegistryError {
    UnknownSkill(String),
    InvalidSkillManifest,
}

/// Why a skill was not admitted for execution.
#[derive(Clone, Debug, PartialEq, Eq)]
pub enum AdmissionError {
    EmergencyStop,
    UnknownSkill(String),
    CapabilityMissing(Vec<String>),
}

/// The definition of a built-in skill: name, description, required capabilities and
/// permissions.
pub ghost struct SkillDef {
    pub name: Seq<char>,
    pub description: Seq<char>,
    pub requires: Seq<Seq<char>>,
    pub permissions: Seq<Seq<char>>,
}

pub open spec fn def_of(name: Seq<char>, description: Seq<char>, needs: Seq<Seq<char>>, permissions: Seq<Seq<char>>) -> SkillDef {
    SkillDef { name, description, requires: needs, permissions }
}

/// Built-in skill definitions, part 1 of 5.
pub open spec fn builtin_defs_0() -> Seq<SkillDef> {
    seq![
        def_of("stop"@, "Immediately stop autonomous motion."@, Seq::empty(), seq!["locomotion.control"@]),
        def_of("speak"@, "Speak supplied text through the robot speaker."@, seq!["audio.speakers"@], seq!["speaker.write"@]),
        def_of("look_at"@, "Orient vision toward a named target."@, seq!["vision.rgb"@], seq!["camera.read"@]),
        def_of("turn_left"@, "Turn safely to the left."@, seq!["locomotion.control"@], seq!["locomotion.control"@]),
        def_of("turn_right"@, "Turn safely to the right."@, seq!["locomotion.control"@], seq!["locomotion.control"@]),
        def_of("move_forward"@, "Move forward with speed limits enforced."@, seq!["locomotion.control"@], seq!["locomotion.control"@]),
        def_of("move_backward"@, "Move backward with speed limits enforced."@, seq!["locomotion.control"@], seq!["locomotion.control"@]),
    ]
}

/// Built-in skill definitions, part 2 of 5.
pub open spec fn builtin_defs_1() -> Seq<SkillDef> {
    seq![
        def_of("walk_to"@, "Navigate to a known location."@, seq!["locomotion.control"@], seq!["locomotion.control"@]),
        def_of("follow_target"@, "Follow a visible object."@, seq!["locomotion.control"@, "vision.rgb"@], seq!["locomotion.control"@, "camera.read"@]),
        def_of("pick_up"@, "Grasp an identified object."@, seq!["vision.rgb"@, "manipulators.right.gripper"@], seq!["camera.read"@, "manipulator.right.control"@]),
        def_of("place_object"@, "Place a held object at a target."@, seq!["manipulators.right.gripper"@], seq!["manipulator.right.control"@]),
        def_of("inspect_object"@, "Inspect an object using synthetic vision."@, seq!["vision.rgb"@], seq!["camera.read"@]),
        def_of("scan_room"@, "Scan the current environment."@, seq!["vision.rgb"@], seq!["camera.read"@]),
        def_of("return_home"@, "Navigate to the home pose."@, seq!["locomotion.control"@], seq!["locomotion.control"@]),
    ]
}

/// Built-in skill definitions, part 3 of 5.
pub open spec fn builtin_defs_2() -> Seq<SkillDef> {
    seq![
        def_of("dock"@, "Navigate to and dock at a charging station."@, seq!["locomotion.control"@], seq!["locomotion.control"@]),
        def_of("pause"@, "Pause a current task at a safe point."@, Seq::empty(), Seq::empty()),
        def_of("resume"@, "Resume a paused task after validation."@, Seq::empty(), Seq::empty()),
        def_of("rotate"@, "Rotate the mobile base safely."@, seq!["locomotion.control"@], seq!["locomotion.control"@]),
        def_of("navigate_to"@, "Navigate to a named location."@, seq!["locomotion.control"@], seq!["locomotion.control"@]),
        def_of("open_gripper"@, "Open the right gripper."@, seq!["manipulators.right.gripper"@], seq!["manipulator.right.control"@]),
        def_of("close_gripper"@, "Close the right gripper."@, seq!["manipulators.right.gripper"@], seq!["manipulator.right.control"@]),
    ]
}

/// Built-in skill definitions, part 4 of 5.
pub open spec fn builtin_defs_3() -> Seq<SkillDef> {
    seq![
        def_of("reach"@, "Move the right arm toward a target."@, seq!["manipulators.right.gripper"@], seq!["manipulator.right.control"@]),
        def_of("place"@, "Place a held object safely."@, seq!["manipulators.right.gripper"@], seq!["manipulator.right.control"@]),
        def_of("handoff"@, "Present a held object for handoff."@, seq!["manipulators.right.gripper"@], seq!["manipulator.right.control"@]),
        def_of("stow_arm"@, "Return the arm to a stowed pose."@, seq!["manipulators.right.gripper"@], seq!["manipulator.right.control"@]),
        def_of("scan_area"@, "Scan a named area."@, seq!["vision.rgb"@], seq!["camera.read"@]),
        def_of("find_object"@, "Locate a named known object."@, seq!["vision.rgb"@], seq!["camera.read"@]),
        def_of("track_object"@, "Track a visible object."@, seq!["vision.rgb"@], seq!["camera.read"@]),
    ]
}

/// Built-in skill definitions, part 5 of 5.
pub open spec fn builtin_defs_4() -> Seq<SkillDef> {
    seq![
        def_of("listen_for_command"@, "Read audio input for a command."@, seq!["audio.microphones"@], seq!["microphone.read"@]),
        def_of("request_assistance"@, "Report a task state requiring an operator."@, seq!["audio.speakers"@], seq!["speaker.write"@]),
        def_of("self_check"@, "Run non-actuating health diagnostics."@, Seq::empty(), seq!["telemetry.read"@]),
        def_of("recalibrate"@, "Request controlled simulated recalibration."@, Seq::empty(), seq!["telemetry.read"@]),
        def_of("safe_shutdown"@, "Stop safely and transition the robot offline."@, Seq::empty(), seq!["locomotion.control"@]),
        def_of("structure_scan"@, "Inspect visible and instrument-accessible building structure."@, seq!["vision.rgb"@], seq!["camera.read"@]),
        def_of("door_scan"@, "Characterize observable door geometry and state."@, seq!["vision.rgb"@], seq!["camera.read"@]),
    ]
}

fn push_builtin_defs_0(defs: &mut Vec<BuiltinDef>)
    ensures
        def_views(final(defs)@) == def_views(old(defs)@) + builtin_defs_0(),
{
    let ghost start = def_views(defs@);
    push_def(defs, "stop", "Immediately stop autonomous motion.", none(), one("locomotion.control"));
    push_def(defs, "speak", "Speak supplied text through the robot speaker.", one("audio.speakers"), one("speaker.write"));
    push_def(defs, "look_at", "Orient vision toward a named target.", one("vision.rgb"), one("camera.read"));
    push_def(defs, "turn_left", "Turn safely to the left.", one("locomotion.control"), one("locomotion.control"));
    push_def(defs, "turn_right", "Turn safely to the right.", one("locomotion.control"), one("locomotion.control"));
    push_def(defs, "move_forward", "Move forward with speed limits enforced.", one("locomotion.control"), one("locomotion.control"));
    push_def(defs, "move_backward", "Move backward with speed limits enforced.", one("locomotion.control"), one("locomotion.control"));
    proof {
        assert(def_views(defs@) =~= start + builtin_defs_0());
    }
}

fn push_builtin_defs_1(defs: &mut Vec<BuiltinDef>)
    ensures
        def_views(final(defs)@) == def_views(old(defs)@) + builtin_defs_1(),
{
    let ghost start = def_views(defs@);
    push_def(defs, "walk_to", "Navigate to a known location.", one("locomotion.control"), one("locomotion.control"));
    push_def(defs, "follow_target", "Follow a visible object.", two("locomotion.control", "vision.rgb"), two("locomotion.control", "camera.read"));
    push_def(defs, "pick_up", "Grasp an identified object.", two("vision.rgb", "manipulators.right.gripper"), two("camera.read", "manipulator.right.control"));
    push_def(defs, "place_object", "Place a held object at a target.", one("manipulators.right.gripper"), one("manipulator.right.control"));
    push_def(defs, "inspect_object", "Inspect an object using synthetic vision.", one("vision.rgb"), one("camera.read"));
    push_def(defs, "scan_room", "Scan the current environment.", one("vision.rgb"), one("camera.read"));
    push_def(defs, "return_home", "Navigate to the home pose.", one("locomotion.control"), one("locomotion.control"));
    proof {
        assert(def_views(defs@) =~= start + builtin_defs_1());
    }
}

fn push_builtin_defs_2(defs: &mut Vec<BuiltinDef>)
    ensures
        def_views(final(defs)@) == def_views(old(defs)@) + builtin_defs_2(),
{
    let ghost start = def_views(defs@);
    push_def(defs, "dock", "Navigate to and dock at a charging station.", one("locomotion.control"), one("locomotion.control"));
    push_def(defs, "pause", "Pause a current task at a safe point.", none(), none());
    push_def(defs, "resume", "Resume a paused task after validation.", none(), none());
    push_def(defs, "rotate", "Rotate the mobile base safely.", one("locomotion.control"), one("locomotion.control"));
    push_def(defs, "navigate_to", "Navigate to a named location.", one("locomotion.control"), one("locomotion.control"));
    push_def(defs, "open_gripper", "Open the right gripper.", one("manipulators.right.gripper"), one("manipulator.right.control"));
    push_def(defs, "close_gripper", "Close the right gripper.", one("manipulators.right.gripper"), one("manipulator.right.control"));
    proof {
        assert(def_views(defs@) =~= start + builtin_defs_2());
    }
}

fn push_builtin_defs_3(defs: &mut Vec<BuiltinDef>)
    ensures
        def_views(final(defs)@) == def_views(old(defs)@) + builtin_defs_3(),
{
    let ghost start = def_views(defs@);
    push_def(defs, "reach", "Move the right arm toward a target.", one("manipulators.right.gripper"), one("manipulator.right.control"));
    push_def(defs, "place", "Place a held object safely.", one("manipulators.right.gripper"), one("manipulator.right.control"));
    push_def(defs, "handoff", "Present a held object for handoff.", one("manipulators.right.gripper"), one("manipulator.right.control"));
    push_def(defs, "stow_arm", "Return the arm to a stowed pose.", one("manipulators.right.gripper"), one("manipulator.right.control"));
    push_def(defs, "scan_area", "Scan a named area.", one("vision.rgb"), one("camera.read"));
    push_def(defs, "find_object", "Locate a named known object.", one("vision.rgb"), one("camera.read"));
    push_def(defs, "track_object", "Track a visible object.", one("vision.rgb"), one("camera.read"));
    proof {
        assert(def_views(defs@) =~= start + builtin_defs_3());
    }
}

fn push_builtin_defs_4(defs: &mut Vec<BuiltinDef>)
    ensures
        def_views(final(defs)@) == def_views(old(defs)@) + builtin_defs_4(),
{
    let ghost start = def_views(defs@);
    push_def(defs, "listen_for_command", "Read audio input for a command.", one("audio.microphones"), one("microphone.read"));
    push_def(defs, "request_assistance", "Report a task state requiring an operator.", one("audio.speakers"), one("speaker.write"));
    push_def(defs, "self_check", "Run non-actuating health diagnostics.", none(), one("telemetry.read"));
    push_def(defs, "recalibrate", "Request controlled simulated recalibration.", none(), one("telemetry.read"));
    push_def(defs, "safe_shutdown", "Stop safely and transition the robot offline.", none(), one("locomotion.control"));
    push_def(defs, "structure_scan", "Inspect visible and instrument-accessible building structure.", one("vision.rgb"), one("camera.read"));
    push_def(defs, "door_scan", "Characterize observable door geometry and state.", one("vision.rgb"), one("camera.read"));
    proof {
        assert(def_views(defs@) =~= start + builtin_defs_4());
    }
}

/// The built-in skill definitions, in the order they are declared.
pub open spec fn builtin_defs() -> Seq<SkillDef> {
    builtin_defs_0() + builtin_defs_1() + builtin_defs_2() + builtin_defs_3() + builtin_defs_4()
}

/// The last definition named `k`, if any (a later definition replaces an earlier one).
pub open spec fn def_for(defs: Seq<SkillDef>, k: Seq<char>) -> Option<SkillDef>
    decreases defs.len(),
{
    if defs.len() == 0 {
        None
    } else if defs.last().name == k {
        Some(defs.last())
    } else {
        def_for(defs.drop_last(), k)
    }
}

/// Whether `m` is the manifest made from definition `d` at `version`.
pub open spec fn built_manifest(m: SkillManifest, d: SkillDef, version: Seq<char>) -> bool {
    &&& m.name@ == d.name
    &&& m.version@ == version
    &&& m.description@ == d.description
    &&& texts(m.requires@) == d.requires
    &&& texts(m.permissions@) == d.permissions
    &&& is_builtin_contract(m.contract, d.name)
}

struct BuiltinDef {
    name: &'static str,
    description: &'static str,
    requires: Vec<&'static str>,
    permissions: Vec<&'static str>,
}

spec fn def_view(d: BuiltinDef) -> SkillDef {
    SkillDef { name: d.name@, description: d.description@, requires: strs(d.requires@), permissions: strs(d.permissions@) }
}

spec fn def_views(ds: Seq<BuiltinDef>) -> Seq<SkillDef> {
    ds.map_values(|d: BuiltinDef| def_view(d))
}

fn none() -> (v: Vec<&'static str>)
    ensures
        strs(v@) == Seq::<Seq<char>>::empty(),
{
    let v: Vec<&'static str> = Vec::new();
    proof {
        assert(strs(v@) =~= Seq::<Seq<char>>::empty());
    }
    v
}

fn one(a: &'static str) -> (v: Vec<&'static str>)
    ensures
        strs(v@) == seq![a@],
{
    let mut v: Vec<&'static str> = Vec::new();
    v.push(a);
    proof {
        assert(strs(v@) =~= seq![a@]);
    }
    v
}

fn two(a: &'static str, b: &'static str) -> (v: Vec<&'static str>)
    ensures
        strs(v@) == seq![a@, b@],
{
    let mut v: Vec<&'static str> = Vec::new();
    v.push(a);
    v.push(b);
    proof {
        assert(strs(v@) =~= seq![a@, b@]);
    }
    v
}

fn push_def(defs: &mut Vec<BuiltinDef>, name: &'static str, description: &'static str, needs: Vec<&'static str>, permissions: Vec<&'static str>)
    ensures
        def_views(final(defs)@) == def_views(old(defs)@).push(def_of(name@, description@, strs(needs@), strs(permissions@))),
{
    defs.push(BuiltinDef { name, description, requires: needs, permissions });
    proof {
        assert(def_views(defs@) =~= def_views(old(defs)@).push(def_of(name@, description@, strs(needs@), strs(permissions@))));
    }
}


fn builtin_definitions() -> (defs: Vec<BuiltinDef>)
    ensures
        def_views(defs@) == builtin_defs(),
{
    let mut defs: Vec<BuiltinDef> = Vec::new();
    push_builtin_defs_0(&mut defs);
    push_builtin_defs_1(&mut defs);
    push_builtin_defs_2(&mut defs);
    push_builtin_defs_3(&mut defs);
    push_builtin_defs_4(&mut defs);
    proof {
        assert(def_views(defs@) =~= builtin_defs());
    }
    defs
}

fn owned_all(v: &Vec<&'static str>) -> (r: Vec<String>)
    ensures
        texts(r@) == strs(v@),
{
    let mut r: Vec<String> = Vec::new();
    let mut i: usize = 0;
    while i < v.len()
        invariant
            i <= v@.len(),
            texts(r@) == strs(v@).take(i as int),
        decreases v@.len() - i,
    {
        let ghost prev = r@;
        r.push(owned(v[i]));
        proof {
            assert(texts(r@) =~= texts(prev).push(v@[i as int]@));
            assert(strs(v@).take(i + 1) =~= strs(v@).take(i as int).push(v@[i as int]@));
        }
        i = i + 1;
    }
    proof {
        assert(strs(v@).take(v@.len() as int) =~= strs(v@));
    }
    r
}

/// The observable state of a registry: skill names in iteration order, the
/// manifests by name, and the enabled names.
pub ghost struct RegistryView {
    pub order: Seq<Seq<char>>,
    pub skills: Map<Seq<char>, SkillManifest>,
    pub enabled: Set<Seq<char>>,
}

/// Installed skills by name, iterated in name order.
#[derive(Clone, Debug)]
pub struct SkillRegistry {
    skills: TextMap<SkillManifest>,
    enabled: TextSet,
}

impl View for SkillRegistry {
    type V = RegistryView;

    closed spec fn view(&self) -> RegistryView {
        RegistryView { order: self.skills.keys(), skills: self.skills.as_map(), enabled: self.enabled.as_set() }
    }
}

/// The value of the first line whose trimmed text starts with `prefix`: the rest of
/// that line, trimmed.
pub open spec fn prefixed_value(ls: Seq<Seq<char>>, prefix: Seq<char>) -> Option<Seq<char>>
    decreases ls.len(),
{
    if ls.len() == 0 {
        None
    } else {
        let t = trim(ls[0]);
        if starts_with(t, prefix) {
            Some(trim(t.subrange(prefix.len() as int, t.len() as int)))
        } else {
            prefixed_value(ls.drop_first(), prefix)
        }
    }
}

fn prefixed_value_exec(ls: &Vec<Vec<char>>, prefix: &str) -> (r: Option<Vec<char>>)
    ensures
        match r {
            Some(v) => prefixed_value(ls@.map_values(|l: Vec<char>| l@), prefix@) == Some(v@),
            None => prefixed_value(ls@.map_values(|l: Vec<char>| l@), prefix@) is None,
        },
{
    let ghost all = ls@.map_values(|l: Vec<char>| l@);
    let p = chars_of(prefix);
    let mut i: usize = 0;
    proof {
        assert(all.subrange(0, all.len() as int) =~= all);
    }
    while i < ls.len()
        invariant
            all == ls@.map_values(|l: Vec<char>| l@),
            p@ == prefix@,
            i <= ls@.len(),
            prefixed_value(all, prefix@) == prefixed_value(all.subrange(i as int, all.len() as int), prefix@),
        decreases ls@.len() - i,
    {
        let ghost rest = all.subrange(i as int, all.len() as int);
        proof {
            assert(rest[0] == ls@[i as int]@);
            assert(rest.drop_first() =~= all.subrange(i + 1, all.len() as int));
        }
        let t = trim_exec(&ls[i]);
        if starts_with_exec(&t, &p) {
            let tail = slice_chars(&t, p.len(), t.len());
            return Some(trim_exec(&tail));
        }
        i = i + 1;
    }
    None
}

/// The manifest installed from a local `skill.yaml` named `name`.
pub open spec fn local_manifest(m: SkillManifest, name: Seq<char>, version: Seq<char>) -> bool {
    &&& m.name@ == name
    &&& m.version@ == version
    &&& m.description@ == "Locally installed skill"@
    &&& m.requires@.len() == 0
    &&& m.permissions@.len() == 0
    &&& is_builtin_contract(m.contract, name)
}

impl SkillRegistry {
    /// The built-in skills, all enabled, each at version 0.5.0 with its shipped
    /// contract.
    pub fn builtin() -> (r: Self)
        ensures
            forall|k: Seq<char>| #[trigger] r@.skills.contains_key(k) <==> def_for(builtin_defs(), k) is Some,
            forall|k: Seq<char>| #[trigger] def_for(builtin_defs(), k) matches Some(d) ==> built_manifest(r@.skills[k], d, "0.5.0"@),
            r@.enabled == r@.skills.dom(),
    {
        let defs = builtin_definitions();
        let ghost dv = def_views(defs@);
        let mut skills: TextMap<SkillManifest> = TextMap::new();
        let mut enabled = TextSet::new();
        let mut i: usize = 0;
        proof {
            assert(dv.take(0) =~= Seq::<SkillDef>::empty());
            assert(enabled.as_set() =~= Set::new(|k: Seq<char>| def_for(dv.take(0), k) is Some));
        }
        while i < defs.len()
            invariant
                i <= defs@.len(),
                dv == def_views(defs@),
                dv == builtin_defs(),
                forall|k: Seq<char>| #[trigger] skills.lookup(k) is Some <==> def_for(dv.take(i as int), k) is Some,
                forall|k: Seq<char>| #[trigger] def_for(dv.take(i as int), k) matches Some(d) ==> (skills.lookup(k) matches Some(m)
                    && built_manifest(m, d, "0.5.0"@)),
                enabled.as_set() == Set::new(|k: Seq<char>| def_for(dv.take(i as int), k) is Some),
            decreases defs@.len() - i,
        {
            let d = &defs[i];
            let ghost dd = dv[i as int];
            proof {
                assert(dd == def_view(defs@[i as int]));
                assert(dv.take(i + 1).drop_last() =~= dv.take(i as int));
                assert(dv.take(i + 1).last() == dd);
            }
            let manifest = SkillManifest {
                name: owned(d.name),
                version: owned("0.5.0"),
                description: owned(d.description),
                requires: owned_all(&d.requires),
                permissions: owned_all(&d.permissions),
                contract: builtin_contract(d.name),
            };
            skills.insert(owned(d.name), manifest);
            enabled.insert(owned(d.name));
            proof {
                assert(enabled.as_set() =~= Set::new(|k: Seq<char>| def_for(dv.take(i + 1), k) is Some));
            }
            i = i + 1;
        }
        let r = SkillRegistry { skills, enabled };
        proof {
            assert(dv.take(defs@.len() as int) =~= dv);
            assert(r@.enabled =~= r@.skills.dom());
        }
        r
    }

    /// The installed skills, in name order.
    pub fn list(&self) -> (r: Vec<&SkillManifest>)
        ensures
            strictly_sorted(self@.order),
            forall|k: Seq<char>| #[trigger] self@.skills.contains_key(k) <==> self@.order.contains(k),
            r@.len() == self@.order.len(),
            forall|i: int| 0 <= i < r@.len() ==> self@.skills.contains_key(self@.order[i]) && *r@[i] == self@.skills[self@.order[i]],
    {
        let mut r: Vec<&SkillManifest> = Vec::new();
        let mut i: usize = 0;
        while i < self.skills.len()
            invariant
                i <= self.skills.keys().len(),
                r@.len() == i,
                forall|j: int| 0 <= j < i ==> self.skills.lookup(self.skills.keys()[j]) == Some(*r@[j]),
            decreases self.skills.keys().len() - i,
        {
            let (_, m) = self.skills.entry_at(i);
            r.push(m);
            i = i + 1;
        }
        r
    }

    /// The manifest of `name`.
    pub fn get(&self, name: &str) -> (r: Option<&SkillManifest>)
        ensures
            r matches Some(m) ==> self@.skills.contains_key(name@) && self@.skills[name@] == *m,
            r is None ==> !self@.skills.contains_key(name@),
    {
        self.skills.get(name)
    }

    /// Whether a robot offers the capabilities a skill requires.
    pub fn compatibility(&self, name: &str, robot: &CapabilityManifest) -> (r: Result<Compatibility, RegistryError>)
        ensures
            !self@.skills.contains_key(name@) ==> (r matches Err(RegistryError::UnknownSkill(n)) && n@ == name@),
            self@.skills.contains_key(name@) ==> (r matches Ok(c)
                && texts(c.missing@) == missing_spec(robot.capabilities.as_set(), texts(self@.skills[name@].requires@))
                && c.compatible == (c.missing@.len() == 0)),
    {
        match self.skills.get(name) {
            None => Err(RegistryError::UnknownSkill(owned(name))),
            Some(skill) => {
                let query = CapabilityQuery { requirements: clone_texts(&skill.requires) };
                Ok(query.evaluate(robot))
            },
        }
    }

    /// Admits skill `name` for execution on `robot` under the safety state `safety`:
    /// an active emergency stop refuses every skill; otherwise the skill must be
    /// known and the robot must offer every capability it requires. An admitted
    /// skill gives its contract, for the contract checks that follow.
    pub fn admission(&self, name: &str, safety: SafetyState, robot: &CapabilityManifest) -> (r: Result<SkillContract, AdmissionError>)
        ensures
            safety == SafetyState::EmergencyStop ==> r matches Err(AdmissionError::EmergencyStop),
            safety != SafetyState::EmergencyStop && !self@.skills.contains_key(name@) ==> (r matches Err(
                AdmissionError::UnknownSkill(n),
            ) && n@ == name@),
            safety != SafetyState::EmergencyStop && self@.skills.contains_key(name@) ==> ({
                let missing = missing_spec(robot.capabilities.as_set(), texts(self@.skills[name@].requires@));
                &&& missing.len() > 0 ==> (r matches Err(AdmissionError::CapabilityMissing(m)) && texts(m@) == missing)
                &&& missing.len() == 0 ==> (r matches Ok(c) && same_contract(c, self@.skills[name@].contract))
            }),
    {
        if safety == SafetyState::EmergencyStop {
            return Err(AdmissionError::EmergencyStop);
        }
        match self.skills.get(name) {
            None => Err(AdmissionError::UnknownSkill(owned(name))),
            Some(skill) => {
                let query = CapabilityQuery { requirements: clone_texts(&skill.requires) };
                let result = query.evaluate(robot);
                if !result.compatible {
                    Err(AdmissionError::CapabilityMissing(result.missing))
                } else {
                    Ok(skill.contract.clone())
                }
            },
        }
    }

    /// Installs a skill from a local `skill.yaml`: its name is the value of the
    /// first `name:` line and its version that of the first `version:` line (0.1.0
    /// when there is none). The new skill is enabled and replaces any skill of the
    /// same name. A manifest without a `name:` line is refused.
    pub fn install_local_manifest(&mut self, yaml: &str) -> (r: Result<String, RegistryError>)
        ensures
            prefixed_value(lines(yaml@), "name:"@) is None ==> (r matches Err(RegistryError::InvalidSkillManifest)
                && final(self)@ == old(self)@),
            prefixed_value(lines(yaml@), "name:"@) matches Some(name) ==> (r matches Ok(n) && n@ == name && {
                let version = match prefixed_value(lines(yaml@), "version:"@) {
                    Some(v) => v,
                    None => "0.1.0"@,
                };
                &&& final(self)@.skills.dom() == old(self)@.skills.dom().insert(name)
                &&& local_manifest(final(self)@.skills[name], name, version)
                &&& forall|k: Seq<char>| k != name && #[trigger] old(self)@.skills.contains_key(k)
                    ==> final(self)@.skills[k] == old(self)@.skills[k]
                &&& final(self)@.enabled == old(self)@.enabled.insert(name)
            }),
    {
        let cs = chars_of(yaml);
        let ls = lines_exec(&cs);
        proof {
            assert(ls@.map_values(|l: Vec<char>| l@) =~= lines(yaml@));
        }
        let name = match prefixed_value_exec(&ls, "name:") {
            Some(v) => string_of(&v),
            None => return Err(RegistryError::InvalidSkillManifest),
        };
        let version = match prefixed_value_exec(&ls, "version:") {
            Some(v) => string_of(&v),
            None => owned("0.1.0"),
        };
        let manifest = SkillManifest {
            name: name.clone(),
            version,
            description: owned("Locally installed skill"),
            requires: Vec::new(),
            permissions: Vec::new(),
            contract: builtin_contract(name.as_str()),
        };
        self.skills.insert(name.clone(), manifest);
        self.enabled.insert(name.clone());
        proof {
            assert(self@.skills.dom() =~= old(self)@.skills.dom().insert(name@));
            assert(self@.enabled =~= old(self)@.enabled.insert(name@));
        }
        Ok(name)
    }
}

// ---------------------------------------------------------------- planning

/// A task-graph node as its variant (0 action, 1 condition, 2 wait, 3 branch,
/// 4 recovery) and its text.
pub open spec fn node_view(n: TaskNode) -> (nat, Seq<char>) {
    match n {
        TaskNode::Action(s) => (0, s@),
        TaskNode::Condition(s) => (1, s@),
        TaskNode::Wait(s) => (2, s@),
        TaskNode::Branch(s) => (3, s@),
        TaskNode::Recovery(s) => (4, s@),
    }
}

pub open spec fn node_views(ns: Seq<TaskNode>) -> Seq<(nat, Seq<char>)> {
    ns.map_values(|n: TaskNode| node_view(n))
}

/// The nodes the deterministic planner produces for a request.
pub open spec fn planned_nodes(request: Seq<char>) -> Seq<(nat, Seq<char>)> {
    let r = ascii_lower(request);
    if contains_text(r, "cube"@) || contains_text(r, "pick"@) || contains_text(r, "bring"@) {
        seq![
            (0nat, "inspect_object(red_cube)"@),
            (0nat, "walk_to(table)"@),
            (0nat, "pick_up(red_cube)"@),
            (1nat, "grasp_verified"@),
            (3nat, "on failure: retry pick_up once; otherwise safe-stop"@),
            (0nat, "return_home"@),
            (0nat, "place_object(home)"@),
        ]
    } else if contains_text(r, "return"@) || contains_text(r, "home"@) {
        seq![(0nat, "return_home"@)]
    } else {
        seq![(4nat, "No deterministic plan available; use an explicit skill."@)]
    }
}

/// A request about a cube, picking or bringing (in any letter case).
pub open spec fn is_fetch_request(request: Seq<char>) -> bool {
    let r = ascii_lower(request);
    contains_text(r, "cube"@) || contains_text(r, "pick"@) || contains_text(r, "bring"@)
}

/// A fetch plan has seven steps: it inspects, walks to the table and picks the cube
/// up, verifies the grasp with a retry-or-safe-stop branch, returns home, and ends by
/// placing the object at home, so the fetched object is always delivered.
pub proof fn law_fetch_plan_delivers(request: Seq<char>)
    requires
        is_fetch_request(request),
    ensures
        planned_nodes(request).len() == 7,
        planned_nodes(request)[0] == (0nat, "inspect_object(red_cube)"@),
        planned_nodes(request)[1] == (0nat, "walk_to(table)"@),
        planned_nodes(request)[2] == (0nat, "pick_up(red_cube)"@),
        planned_nodes(request)[3].0 == 1,
        planned_nodes(request)[4].0 == 3,
        planned_nodes(request)[5] == (0nat, "return_home"@),
        planned_nodes(request).last() == (0nat, "place_object(home)"@),
{
}

/// A request about returning or home, and not about a fetch, plans only the return.
pub proof fn law_return_plan(request: Seq<char>)
    requires
        !is_fetch_request(request),
        contains_text(ascii_lower(request), "return"@) || contains_text(ascii_lower(request), "home"@),
    ensures
        planned_nodes(request) == seq![(0nat, "return_home"@)],
{
}

/// A request about neither a fetch nor a return gets no motion at all: one recovery
/// note asking for an explicit skill.
pub proof fn law_unknown_request_plans_no_motion(request: Seq<char>)
    requires
        !is_fetch_request(request),
        !contains_text(ascii_lower(request), "return"@),
        !contains_text(ascii_lower(request), "home"@),
    ensures
        planned_nodes(request) == seq![(4nat, "No deterministic plan available; use an explicit skill."@)],
{
}

fn push_node(nodes: &mut Vec<TaskNode>, n: TaskNode)
    ensures
        node_views(final(nodes)@) == node_views(old(nodes)@).push(node_view(n)),
{
    nodes.push(n);
    proof {
        assert(node_views(nodes@) =~= node_views(old(nodes)@).push(node_view(n)));
    }
}

/// Plans a fetch for requests about a cube, picking or bringing; a return home for
/// requests about returning or home; otherwise a recovery note asking for an
/// explicit skill.
pub fn plan_task(request: &str) -> (g: TaskGraph)
    ensures
        g.task_id@ == "planned-task"@,
        node_views(g.nodes@) == planned_nodes(request@),
        is_fetch_request(request@) ==> g.nodes@.len() == 7 && node_view(g.nodes@[2]) == (0nat, "pick_up(red_cube)"@)
            && node_view(g.nodes@[5]) == (0nat, "return_home"@)
            && node_view(g.nodes@[6]) == (0nat, "place_object(home)"@),
{
    let lower = to_ascii_lowercase(request);
    let r = lower.as_str();
    let mut nodes: Vec<TaskNode> = Vec::new();
    if str_contains(r, "cube") || str_contains(r, "pick") || str_contains(r, "bring") {
        push_node(&mut nodes, TaskNode::Action(owned("inspect_object(red_cube)")));
        push_node(&mut nodes, TaskNode::Action(owned("walk_to(table)")));
        push_node(&mut nodes, TaskNode::Action(owned("pick_up(red_cube)")));
        push_node(&mut nodes, TaskNode::Condition(owned("grasp_verified")));
        push_node(&mut nodes, TaskNode::Branch(owned("on failure: retry pick_up once; otherwise safe-stop")));
        push_node(&mut nodes, TaskNode::Action(owned("return_home")));
        push_node(&mut nodes, TaskNode::Action(owned("place_object(home)")));
    } else if str_contains(r, "return") || str_contains(r, "home") {
        push_node(&mut nodes, TaskNode::Action(owned("return_home")));
    } else {
        push_node(&mut nodes, TaskNode::Recovery(owned("No deterministic plan available; use an explicit skill.")));
    }
    proof {
        assert(node_views(nodes@) =~= planned_nodes(request@));
    }
    TaskGraph { task_id: owned("planned-task"), nodes }
}

} // verus!
