//! The Nexus Intelligence Layer: policy-governed goals above skills and safety,
//! experience memory, compute placement and automation rules.
use vstd::prelude::*;
use crate::reliable::SkillLifecycle;
use crate::text::{clone_texts, lemma_decimal_digits, ascii_lower, contains_text, decimal, owned, push_decimal, push_str, str_contains, text_eq, texts, to_ascii_lowercase};
use crate::textmap::TextMap;
use crate::textmap::TextSet;

verus! {

#[derive(Clone, Copy, Debug, PartialEq, Eq, Structural)]
pub enum IntelligenceProfile {
    Manual,
    Assisted,
    Supervised,
    Autonomous,
    Custom,
}

#[derive(Clone, Copy, Debug, PartialEq, Eq, Structural, PartialOrd, Ord)]
pub enum AutonomyCapability {
    Navigation,
    Manipulation,
    Perception,
    Learning,
    Exploration,
}

#[derive(Clone, Copy, Debug, PartialEq, Eq, Structural)]
pub enum ExecutionGrant {
    Denied,
    Manual,
    Supervised,
    Autonomous,
    SimulationOnly,
}

#[derive(Clone, Copy, Debug, PartialEq, Eq, Structural, PartialOrd, Ord)]
pub enum AutonomyPermission {
    OpenDoors,
    MoveObjects,
    LeaveZone,
}

#[derive(Clone, Copy, Debug, PartialEq, Eq, Structural)]
pub enum PermissionDecision {
    Denied,
    Ask,
    Allowed,
}

/// What a policy grants a capability: the first entry for it, else nothing.
pub open spec fn grant_in(grants: Seq<(AutonomyCapability, ExecutionGrant)>, c: AutonomyCapability) -> ExecutionGrant
    decreases grants.len(),
{
    if grants.len() == 0 {
        ExecutionGrant::Denied
    } else if grants[0].0 == c {
        grants[0].1
    } else {
        grant_in(grants.drop_first(), c)
    }
}

/// What a policy decides for a permission: the first entry for it, else a denial.
pub open spec fn permission_in(perms: Seq<(AutonomyPermission, PermissionDecision)>, p: AutonomyPermission) -> PermissionDecision
    decreases perms.len(),
{
    if perms.len() == 0 {
        PermissionDecision::Denied
    } else if perms[0].0 == p {
        perms[0].1
    } else {
        permission_in(perms.drop_first(), p)
    }
}

/// The grant a shipped profile gives every capability but learning.
pub open spec fn baseline_grant(profile: IntelligenceProfile) -> ExecutionGrant {
    match profile {
        IntelligenceProfile::Manual => ExecutionGrant::Manual,
        IntelligenceProfile::Assisted => ExecutionGrant::Supervised,
        IntelligenceProfile::Supervised => ExecutionGrant::Supervised,
        IntelligenceProfile::Autonomous => ExecutionGrant::Autonomous,
        IntelligenceProfile::Custom => ExecutionGrant::Denied,
    }
}

/// The grants of a shipped profile, one per capability in capability order.
pub open spec fn profile_grants(profile: IntelligenceProfile) -> Seq<(AutonomyCapability, ExecutionGrant)> {
    let b = baseline_grant(profile);
    seq![
        (AutonomyCapability::Navigation, b),
        (AutonomyCapability::Manipulation, b),
        (AutonomyCapability::Perception, b),
        (AutonomyCapability::Learning, ExecutionGrant::SimulationOnly),
        (AutonomyCapability::Exploration, b),
    ]
}

/// The permissions of a shipped profile, one per permission in permission order.
pub open spec fn profile_permissions(profile: IntelligenceProfile) -> Seq<(AutonomyPermission, PermissionDecision)> {
    seq![
        (AutonomyPermission::OpenDoors, PermissionDecision::Ask),
        (AutonomyPermission::MoveObjects, if profile == IntelligenceProfile::Autonomous {
            PermissionDecision::Allowed
        } else {
            PermissionDecision::Ask
        }),
        (AutonomyPermission::LeaveZone, PermissionDecision::Denied),
    ]
}

/// The zones a shipped profile may operate in.
pub open spec fn profile_zones() -> Set<Seq<char>> {
    set!["home"@, "warehouse"@, "workspace"@]
}

/// Replacing the grant of the first entry for a capability changes only that
/// capability's grant.
proof fn lemma_grant_update(g: Seq<(AutonomyCapability, ExecutionGrant)>, i: int, grant: ExecutionGrant, c: AutonomyCapability)
    requires
        0 <= i < g.len(),
        forall|j: int| 0 <= j < i ==> (#[trigger] g[j]).0 != g[i].0,
    ensures
        grant_in(g.update(i, (g[i].0, grant)), c) == if c == g[i].0 { grant } else { grant_in(g, c) },
    decreases i,
{
    let u = g.update(i, (g[i].0, grant));
    assert(u.len() > 0 && g.len() > 0);
    if i == 0 {
        assert(u.drop_first() =~= g.drop_first());
    } else {
        assert(u.drop_first() =~= g.drop_first().update(i - 1, (g[i].0, grant)));
        assert(g.drop_first()[i - 1] == g[i]);
        assert forall|j: int| 0 <= j < i - 1 implies (#[trigger] g.drop_first()[j]).0 != g.drop_first()[i - 1].0 by {
            assert(g.drop_first()[j] == g[j + 1]);
        }
        lemma_grant_update(g.drop_first(), i - 1, grant, c);
        assert(u[0] == g[0]);
    }
}

/// Adding an entry for a capability without one gives it that grant.
proof fn lemma_grant_push(g: Seq<(AutonomyCapability, ExecutionGrant)>, k: AutonomyCapability, grant: ExecutionGrant, c: AutonomyCapability)
    requires
        forall|j: int| 0 <= j < g.len() ==> (#[trigger] g[j]).0 != k,
    ensures
        grant_in(g.push((k, grant)), c) == if c == k { grant } else { grant_in(g, c) },
    decreases g.len(),
{
    let u = g.push((k, grant));
    assert(u.len() > 0);
    assert(u[0] == if g.len() > 0 { g[0] } else { (k, grant) });
    if g.len() > 0 {
        assert(g.push((k, grant)).drop_first() =~= g.drop_first().push((k, grant)));
        assert forall|j: int| 0 <= j < g.drop_first().len() implies (#[trigger] g.drop_first()[j]).0 != k by {
            assert(g.drop_first()[j] == g[j + 1]);
        }
        lemma_grant_push(g.drop_first(), k, grant, c);
    } else {
        assert(g.push((k, grant)).drop_first() =~= Seq::<(AutonomyCapability, ExecutionGrant)>::empty());
    }
}

/// Replacing the decision of the first entry for a permission changes only that
/// permission's decision.
proof fn lemma_permission_update(g: Seq<(AutonomyPermission, PermissionDecision)>, i: int, d: PermissionDecision, p: AutonomyPermission)
    requires
        0 <= i < g.len(),
        forall|j: int| 0 <= j < i ==> (#[trigger] g[j]).0 != g[i].0,
    ensures
        permission_in(g.update(i, (g[i].0, d)), p) == if p == g[i].0 { d } else { permission_in(g, p) },
    decreases i,
{
    let u = g.update(i, (g[i].0, d));
    assert(u.len() > 0 && g.len() > 0);
    if i == 0 {
        assert(u.drop_first() =~= g.drop_first());
    } else {
        assert(u.drop_first() =~= g.drop_first().update(i - 1, (g[i].0, d)));
        assert(g.drop_first()[i - 1] == g[i]);
        assert forall|j: int| 0 <= j < i - 1 implies (#[trigger] g.drop_first()[j]).0 != g.drop_first()[i - 1].0 by {
            assert(g.drop_first()[j] == g[j + 1]);
        }
        lemma_permission_update(g.drop_first(), i - 1, d, p);
        assert(u[0] == g[0]);
    }
}

/// Adding an entry for a permission without one gives it that decision.
proof fn lemma_permission_push(g: Seq<(AutonomyPermission, PermissionDecision)>, k: AutonomyPermission, d: PermissionDecision, p: AutonomyPermission)
    requires
        forall|j: int| 0 <= j < g.len() ==> (#[trigger] g[j]).0 != k,
    ensures
        permission_in(g.push((k, d)), p) == if p == k { d } else { permission_in(g, p) },
    decreases g.len(),
{
    let u = g.push((k, d));
    assert(u.len() > 0);
    assert(u[0] == if g.len() > 0 { g[0] } else { (k, d) });
    assert(permission_in(u, p) == if u[0].0 == p { u[0].1 } else { permission_in(u.drop_first(), p) });
    if g.len() > 0 {
        assert(permission_in(g, p) == if g[0].0 == p { g[0].1 } else { permission_in(g.drop_first(), p) });
    }
    if g.len() > 0 {
        assert(g.push((k, d)).drop_first() =~= g.drop_first().push((k, d)));
        assert forall|j: int| 0 <= j < g.drop_first().len() implies (#[trigger] g.drop_first()[j]).0 != k by {
            assert(g.drop_first()[j] == g[j + 1]);
        }
        lemma_permission_push(g.drop_first(), k, d, p);
    } else {
        assert(g.push((k, d)).drop_first() =~= Seq::<(AutonomyPermission, PermissionDecision)>::empty());
    }
}

/// An autonomy policy. Each capability and permission has at most one entry; an
/// absent capability is denied and an absent permission is refused. The speed scale
/// is in whole percent of the robot's rated speed.
#[derive(Clone, Debug)]
pub struct AutonomyPolicy {
    pub profile: IntelligenceProfile,
    pub grants: Vec<(AutonomyCapability, ExecutionGrant)>,
    pub permissions: Vec<(AutonomyPermission, PermissionDecision)>,
    pub allowed_zones: TextSet,
    pub speed_scale_percent: u8,
    pub minimum_skill_validation: SkillLifecycle,
}

/// Where an envelope lists an activity: 0 allowed, 1 needs approval, 2 prohibited.
pub open spec fn grant_bucket(g: ExecutionGrant) -> nat {
    match g {
        ExecutionGrant::Autonomous => 0,
        ExecutionGrant::Supervised | ExecutionGrant::Manual => 1,
        _ => 2,
    }
}

/// Where an envelope lists a permission: 0 allowed, 1 needs approval, 2 prohibited.
pub open spec fn decision_bucket(d: PermissionDecision) -> nat {
    match d {
        PermissionDecision::Allowed => 0,
        PermissionDecision::Ask => 1,
        PermissionDecision::Denied => 2,
    }
}

/// The activities an envelope describes, in order, each with its bucket.
pub open spec fn envelope_entries(p: AutonomyPolicy) -> Seq<(Seq<char>, nat)> {
    seq![
        ("Navigate designated zones"@, grant_bucket(grant_in(p.grants@, AutonomyCapability::Navigation))),
        ("Use permitted sensors"@, grant_bucket(grant_in(p.grants@, AutonomyCapability::Perception))),
        ("Explore allowed zones"@, grant_bucket(grant_in(p.grants@, AutonomyCapability::Exploration))),
        ("Move objects"@, decision_bucket(permission_in(p.permissions@, AutonomyPermission::MoveObjects))),
        ("Open doors"@, decision_bucket(permission_in(p.permissions@, AutonomyPermission::OpenDoors))),
        ("Leave allowed zones"@, decision_bucket(permission_in(p.permissions@, AutonomyPermission::LeaveZone))),
    ]
}

/// The labels of the entries in bucket `b`, in order.
pub open spec fn labels_in(es: Seq<(Seq<char>, nat)>, b: nat) -> Seq<Seq<char>>
    decreases es.len(),
{
    if es.len() == 0 {
        Seq::empty()
    } else {
        labels_in(es.drop_last(), b) + if es.last().1 == b {
            seq![es.last().0]
        } else {
            Seq::empty()
        }
    }
}

/// A human-readable summary of what a policy lets the robot do.
#[derive(Clone, Debug)]
pub struct OperatingEnvelope {
    pub allowed: Vec<String>,
    pub approval_required: Vec<String>,
    pub prohibited: Vec<String>,
}

impl OperatingEnvelope {
    /// Appends `label` to the list of bucket `bucket`.
    fn place(&mut self, label: &str, bucket: u8)
        requires
            bucket <= 2,
        ensures
            texts(final(self).allowed@) == texts(old(self).allowed@) + if bucket == 0 { seq![label@] } else { Seq::empty() },
            texts(final(self).approval_required@) == texts(old(self).approval_required@) + if bucket == 1 { seq![label@] } else { Seq::empty() },
            texts(final(self).prohibited@) == texts(old(self).prohibited@) + if bucket == 2 { seq![label@] } else { Seq::empty() },
    {
        if bucket == 0 {
            self.allowed.push(owned(label));
            proof {
                assert(texts(self.allowed@) =~= texts(old(self).allowed@) + seq![label@]);
            }
        } else if bucket == 1 {
            self.approval_required.push(owned(label));
            proof {
                assert(texts(self.approval_required@) =~= texts(old(self).approval_required@) + seq![label@]);
            }
        } else {
            self.prohibited.push(owned(label));
            proof {
                assert(texts(self.prohibited@) =~= texts(old(self).prohibited@) + seq![label@]);
            }
        }
        proof {
            assert(texts(self.allowed@) =~= texts(old(self).allowed@) + if bucket == 0 { seq![label@] } else { Seq::empty() });
            assert(texts(self.approval_required@) =~= texts(old(self).approval_required@) + if bucket == 1 { seq![label@] } else { Seq::empty() });
            assert(texts(self.prohibited@) =~= texts(old(self).prohibited@) + if bucket == 2 { seq![label@] } else { Seq::empty() });
        }
    }
}

fn grant_bucket_exec(g: ExecutionGrant) -> (b: u8)
    ensures
        b == grant_bucket(g),
{
    match g {
        ExecutionGrant::Autonomous => 0,
        ExecutionGrant::Supervised | ExecutionGrant::Manual => 1,
        _ => 2,
    }
}

fn decision_bucket_exec(d: PermissionDecision) -> (b: u8)
    ensures
        b == decision_bucket(d),
{
    match d {
        PermissionDecision::Allowed => 0,
        PermissionDecision::Ask => 1,
        PermissionDecision::Denied => 2,
    }
}

impl AutonomyPolicy {
    /// The shipped policy of a profile: every capability but learning gets the
    /// profile's baseline grant, learning stays in simulation, doors need approval,
    /// moving objects is allowed only for the autonomous profile, and leaving the
    /// allowed zones is always denied.
    pub fn for_profile(profile: IntelligenceProfile) -> (p: Self)
        ensures
            p.profile == profile,
            p.grants@ == profile_grants(profile),
            p.permissions@ == profile_permissions(profile),
            p.allowed_zones.as_set() == profile_zones(),
            p.speed_scale_percent == (if profile == IntelligenceProfile::Manual { 50u8 } else { 100u8 }),
            p.minimum_skill_validation == SkillLifecycle::SimulationValidated,
            forall|c: AutonomyCapability| #[trigger] grant_in(p.grants@, c) == if c == AutonomyCapability::Learning {
                ExecutionGrant::SimulationOnly
            } else {
                baseline_grant(profile)
            },
            permission_in(p.permissions@, AutonomyPermission::LeaveZone) == PermissionDecision::Denied,
    {
        let baseline = match profile {
            IntelligenceProfile::Manual => ExecutionGrant::Manual,
            IntelligenceProfile::Assisted => ExecutionGrant::Supervised,
            IntelligenceProfile::Supervised => ExecutionGrant::Supervised,
            IntelligenceProfile::Autonomous => ExecutionGrant::Autonomous,
            IntelligenceProfile::Custom => ExecutionGrant::Denied,
        };
        let mut grants: Vec<(AutonomyCapability, ExecutionGrant)> = Vec::new();
        grants.push((AutonomyCapability::Navigation, baseline));
        grants.push((AutonomyCapability::Manipulation, baseline));
        grants.push((AutonomyCapability::Perception, baseline));
        grants.push((AutonomyCapability::Learning, ExecutionGrant::SimulationOnly));
        grants.push((AutonomyCapability::Exploration, baseline));
        let move_objects = if profile == IntelligenceProfile::Autonomous {
            PermissionDecision::Allowed
        } else {
            PermissionDecision::Ask
        };
        let mut permissions: Vec<(AutonomyPermission, PermissionDecision)> = Vec::new();
        permissions.push((AutonomyPermission::OpenDoors, PermissionDecision::Ask));
        permissions.push((AutonomyPermission::MoveObjects, move_objects));
        permissions.push((AutonomyPermission::LeaveZone, PermissionDecision::Denied));
        let mut allowed_zones = TextSet::new();
        allowed_zones.insert(owned("home"));
        allowed_zones.insert(owned("warehouse"));
        allowed_zones.insert(owned("workspace"));
        let speed_scale_percent: u8 = if profile == IntelligenceProfile::Manual { 50 } else { 100 };
        proof {
            assert(grants@ =~= profile_grants(profile));
            assert(permissions@ =~= profile_permissions(profile));
            assert(allowed_zones.as_set() =~= profile_zones());
            let g = grants@;
            assert(g.drop_first().drop_first().drop_first().drop_first().drop_first().len() == 0);
            assert forall|c: AutonomyCapability| #[trigger] grant_in(g, c) == if c == AutonomyCapability::Learning {
                ExecutionGrant::SimulationOnly
            } else {
                baseline
            } by {
                reveal_with_fuel(grant_in, 6);
            }
            reveal_with_fuel(permission_in, 4);
        }
        AutonomyPolicy {
            profile,
            grants,
            permissions,
            allowed_zones,
            speed_scale_percent,
            minimum_skill_validation: SkillLifecycle::SimulationValidated,
        }
    }

    /// The grant for `capability`; a capability without an entry is denied.
    pub fn grant(&self, capability: AutonomyCapability) -> (g: ExecutionGrant)
        ensures
            g == grant_in(self.grants@, capability),
    {
        let mut i: usize = 0;
        proof {
            assert(self.grants@.subrange(0, self.grants@.len() as int) =~= self.grants@);
        }
        while i < self.grants.len()
            invariant
                i <= self.grants@.len(),
                grant_in(self.grants@, capability) == grant_in(self.grants@.subrange(i as int, self.grants@.len() as int), capability),
            decreases self.grants@.len() - i,
        {
            let ghost rest = self.grants@.subrange(i as int, self.grants@.len() as int);
            proof {
                assert(rest.drop_first() =~= self.grants@.subrange(i + 1, self.grants@.len() as int));
            }
            if self.grants[i].0 == capability {
                return self.grants[i].1;
            }
            i = i + 1;
        }
        ExecutionGrant::Denied
    }

    /// The decision for `permission`; a permission without an entry is denied.
    pub fn permission(&self, permission: AutonomyPermission) -> (d: PermissionDecision)
        ensures
            d == permission_in(self.permissions@, permission),
    {
        let mut i: usize = 0;
        proof {
            assert(self.permissions@.subrange(0, self.permissions@.len() as int) =~= self.permissions@);
        }
        while i < self.permissions.len()
            invariant
                i <= self.permissions@.len(),
                permission_in(self.permissions@, permission) == permission_in(
                    self.permissions@.subrange(i as int, self.permissions@.len() as int),
                    permission,
                ),
            decreases self.permissions@.len() - i,
        {
            let ghost rest = self.permissions@.subrange(i as int, self.permissions@.len() as int);
            proof {
                assert(rest.drop_first() =~= self.permissions@.subrange(i + 1, self.permissions@.len() as int));
            }
            if self.permissions[i].0 == permission {
                return self.permissions[i].1;
            }
            i = i + 1;
        }
        PermissionDecision::Denied
    }

    /// Gives `capability` the grant `grant`, replacing its entry or adding one.
    pub fn set_grant(&mut self, capability: AutonomyCapability, grant: ExecutionGrant)
        ensures
            forall|c: AutonomyCapability| #[trigger] grant_in(final(self).grants@, c) == if c == capability {
                grant
            } else {
                grant_in(old(self).grants@, c)
            },
            final(self).permissions == old(self).permissions,
            final(self).profile == old(self).profile,
            final(self).allowed_zones == old(self).allowed_zones,
            final(self).speed_scale_percent == old(self).speed_scale_percent,
            final(self).minimum_skill_validation == old(self).minimum_skill_validation,
    {
        let mut i: usize = 0;
        while i < self.grants.len()
            invariant
                i <= self.grants@.len(),
                self.grants == old(self).grants,
                self.permissions == old(self).permissions,
                self.profile == old(self).profile,
                self.allowed_zones == old(self).allowed_zones,
                self.speed_scale_percent == old(self).speed_scale_percent,
                self.minimum_skill_validation == old(self).minimum_skill_validation,
                forall|j: int| 0 <= j < i ==> (#[trigger] self.grants@[j]).0 != capability,
            decreases self.grants@.len() - i,
        {
            if self.grants[i].0 == capability {
                let ghost g = self.grants@;
                self.grants.set(i, (capability, grant));
                proof {
                    assert forall|c: AutonomyCapability| #[trigger] grant_in(self.grants@, c) == if c == capability {
                        grant
                    } else {
                        grant_in(g, c)
                    } by {
                        lemma_grant_update(g, i as int, grant, c);
                    }
                }
                return;
            }
            i = i + 1;
        }
        let ghost g = self.grants@;
        self.grants.push((capability, grant));
        proof {
            assert forall|c: AutonomyCapability| #[trigger] grant_in(self.grants@, c) == if c == capability {
                grant
            } else {
                grant_in(g, c)
            } by {
                lemma_grant_push(g, capability, grant, c);
            }
        }
    }

    /// Gives `permission` the decision `decision`, replacing its entry or adding one.
    pub fn set_permission(&mut self, permission: AutonomyPermission, decision: PermissionDecision)
        ensures
            forall|p: AutonomyPermission| #[trigger] permission_in(final(self).permissions@, p) == if p == permission {
                decision
            } else {
                permission_in(old(self).permissions@, p)
            },
            final(self).grants == old(self).grants,
            final(self).profile == old(self).profile,
            final(self).allowed_zones == old(self).allowed_zones,
            final(self).speed_scale_percent == old(self).speed_scale_percent,
            final(self).minimum_skill_validation == old(self).minimum_skill_validation,
    {
        let mut i: usize = 0;
        while i < self.permissions.len()
            invariant
                i <= self.permissions@.len(),
                self.permissions == old(self).permissions,
                self.grants == old(self).grants,
                self.profile == old(self).profile,
                self.allowed_zones == old(self).allowed_zones,
                self.speed_scale_percent == old(self).speed_scale_percent,
                self.minimum_skill_validation == old(self).minimum_skill_validation,
                forall|j: int| 0 <= j < i ==> (#[trigger] self.permissions@[j]).0 != permission,
            decreases self.permissions@.len() - i,
        {
            if self.permissions[i].0 == permission {
                let ghost g = self.permissions@;
                self.permissions.set(i, (permission, decision));
                proof {
                    assert forall|p: AutonomyPermission| #[trigger] permission_in(self.permissions@, p) == if p == permission {
                        decision
                    } else {
                        permission_in(g, p)
                    } by {
                        lemma_permission_update(g, i as int, decision, p);
                    }
                }
                return;
            }
            i = i + 1;
        }
        let ghost g = self.permissions@;
        self.permissions.push((permission, decision));
        proof {
            assert forall|p: AutonomyPermission| #[trigger] permission_in(self.permissions@, p) == if p == permission {
                decision
            } else {
                permission_in(g, p)
            } by {
                lemma_permission_push(g, permission, decision, p);
            }
        }
    }

    /// Sorts navigation, perception and exploration by their grants, then moving
    /// objects, opening doors and leaving the zones by their decisions.
    pub fn operating_envelope(&self) -> (e: OperatingEnvelope)
        ensures
            texts(e.allowed@) == labels_in(envelope_entries(*self), 0),
            texts(e.approval_required@) == labels_in(envelope_entries(*self), 1),
            texts(e.prohibited@) == labels_in(envelope_entries(*self), 2),
    {
        let mut entries: Vec<(&str, u8)> = Vec::new();
        entries.push(("Navigate designated zones", grant_bucket_exec(self.grant(AutonomyCapability::Navigation))));
        entries.push(("Use permitted sensors", grant_bucket_exec(self.grant(AutonomyCapability::Perception))));
        entries.push(("Explore allowed zones", grant_bucket_exec(self.grant(AutonomyCapability::Exploration))));
        entries.push(("Move objects", decision_bucket_exec(self.permission(AutonomyPermission::MoveObjects))));
        entries.push(("Open doors", decision_bucket_exec(self.permission(AutonomyPermission::OpenDoors))));
        entries.push(("Leave allowed zones", decision_bucket_exec(self.permission(AutonomyPermission::LeaveZone))));
        let ghost es = envelope_entries(*self);
        proof {
            assert(es.len() == entries@.len());
            assert forall|j: int| 0 <= j < es.len() implies #[trigger] es[j] == (entries@[j].0@, entries@[j].1 as nat) by {}
        }
        let mut env = OperatingEnvelope { allowed: Vec::new(), approval_required: Vec::new(), prohibited: Vec::new() };
        let mut i: usize = 0;
        proof {
            assert(texts(env.allowed@) =~= labels_in(es.take(0), 0));
            assert(texts(env.approval_required@) =~= labels_in(es.take(0), 1));
            assert(texts(env.prohibited@) =~= labels_in(es.take(0), 2));
        }
        while i < entries.len()
            invariant
                i <= entries@.len(),
                es.len() == entries@.len(),
                forall|j: int| 0 <= j < es.len() ==> #[trigger] es[j] == (entries@[j].0@, entries@[j].1 as nat),
                forall|j: int| 0 <= j < entries@.len() ==> #[trigger] entries@[j].1 <= 2,
                texts(env.allowed@) == labels_in(es.take(i as int), 0),
                texts(env.approval_required@) == labels_in(es.take(i as int), 1),
                texts(env.prohibited@) == labels_in(es.take(i as int), 2),
            decreases entries@.len() - i,
        {
            let (label, bucket) = entries[i];
            env.place(label, bucket);
            proof {
                assert(es.take(i + 1).drop_last() =~= es.take(i as int));
                assert(es.take(i + 1).last() == es[i as int]);
            }
            i = i + 1;
        }
        proof {
            assert(es.take(es.len() as int) =~= es);
        }
        env
    }
}

#[derive(Clone, Copy, Debug, PartialEq, Eq, Structural)]
pub enum GoalRisk {
    Low,
    Medium,
    High,
}

#[derive(Clone, Copy, Debug, PartialEq, Eq, Structural)]
pub enum PlanState {
    Preview,
    AwaitingApproval,
    Approved,
    Executing,
    Completed,
    Rejected,
}

#[derive(Clone, Copy, Debug, PartialEq, Eq, Structural, PartialOrd, Ord)]
pub enum MemoryCategory {
    World,
    Task,
    Skill,
    Failure,
    Routine,
    Operator,
}

#[derive(Clone, Copy, Debug, PartialEq, Eq, Structural)]
pub enum MemoryRetention {
    Persistent,
    SessionOnly,
    Expiring,
    Disabled,
}

/// One remembered experience. Confidence is in whole percent.
#[derive(Debug)]
pub struct MemoryRecord {
    pub id: String,
    pub category: MemoryCategory,
    pub subject: String,
    pub detail: String,
    pub confidence_percent: u8,
    pub timestamp_ms: u128,
    pub retention: MemoryRetention,
}

/// A memory record with its texts as character sequences.
pub ghost struct MemoryRecordView {
    pub id: Seq<char>,
    pub category: MemoryCategory,
    pub subject: Seq<char>,
    pub detail: Seq<char>,
    pub confidence_percent: u8,
    pub timestamp_ms: u128,
    pub retention: MemoryRetention,
}

impl View for MemoryRecord {
    type V = MemoryRecordView;

    open spec fn view(&self) -> MemoryRecordView {
        MemoryRecordView {
            id: self.id@,
            category: self.category,
            subject: self.subject@,
            detail: self.detail@,
            confidence_percent: self.confidence_percent,
            timestamp_ms: self.timestamp_ms,
            retention: self.retention,
        }
    }
}

impl Clone for MemoryRecord {
    fn clone(&self) -> (r: Self)
        ensures
            r@ == self@,
    {
        MemoryRecord {
            id: self.id.clone(),
            category: self.category,
            subject: self.subject.clone(),
            detail: self.detail.clone(),
            confidence_percent: self.confidence_percent,
            timestamp_ms: self.timestamp_ms,
            retention: self.retention,
        }
    }
}

/// The views of a list of memory records.
pub open spec fn record_views(rs: Seq<MemoryRecord>) -> Seq<MemoryRecordView> {
    rs.map_values(|r: MemoryRecord| r@)
}

/// How long a category is kept: the first policy entry for it, else not at all.
pub open spec fn retention_in(policies: Seq<(MemoryCategory, MemoryRetention)>, c: MemoryCategory) -> MemoryRetention
    decreases policies.len(),
{
    if policies.len() == 0 {
        MemoryRetention::Disabled
    } else if policies[0].0 == c {
        policies[0].1
    } else {
        retention_in(policies.drop_first(), c)
    }
}

/// The retention policies memory starts with: operator data is never kept.
pub open spec fn default_policies() -> Seq<(MemoryCategory, MemoryRetention)> {
    seq![
        (MemoryCategory::World, MemoryRetention::Persistent),
        (MemoryCategory::Task, MemoryRetention::Persistent),
        (MemoryCategory::Skill, MemoryRetention::Persistent),
        (MemoryCategory::Failure, MemoryRetention::Persistent),
        (MemoryCategory::Routine, MemoryRetention::Persistent),
        (MemoryCategory::Operator, MemoryRetention::Disabled),
    ]
}

/// The identifier of the `n`-th remembered record.
pub open spec fn memory_id(n: nat) -> Seq<char> {
    "mem-"@ + decimal(n)
}

/// The records that remain after forgetting `id`, in order.
pub open spec fn without_id(rs: Seq<MemoryRecordView>, id: Seq<char>) -> Seq<MemoryRecordView>
    decreases rs.len(),
{
    if rs.len() == 0 {
        Seq::empty()
    } else {
        without_id(rs.drop_last(), id) + if rs.last().id == id {
            Seq::empty()
        } else {
            seq![rs.last()]
        }
    }
}

/// The observable state of experience memory.
pub ghost struct MemoryView {
    pub records: Seq<MemoryRecordView>,
    pub policies: Seq<(MemoryCategory, MemoryRetention)>,
}

/// Experience memory with a retention policy per category.
#[derive(Debug)]
pub struct ExperienceMemory {
    records: Vec<MemoryRecord>,
    policies: Vec<(MemoryCategory, MemoryRetention)>,
}

impl View for ExperienceMemory {
    type V = MemoryView;

    closed spec fn view(&self) -> MemoryView {
        MemoryView { records: record_views(self.records@), policies: self.policies@ }
    }
}

impl Default for ExperienceMemory {
    /// Empty memory that keeps everything but operator data.
    fn default() -> (m: Self)
        ensures
            m@.records.len() == 0,
            m@.policies == default_policies(),
    {
        let mut policies: Vec<(MemoryCategory, MemoryRetention)> = Vec::new();
        policies.push((MemoryCategory::World, MemoryRetention::Persistent));
        policies.push((MemoryCategory::Task, MemoryRetention::Persistent));
        policies.push((MemoryCategory::Skill, MemoryRetention::Persistent));
        policies.push((MemoryCategory::Failure, MemoryRetention::Persistent));
        policies.push((MemoryCategory::Routine, MemoryRetention::Persistent));
        policies.push((MemoryCategory::Operator, MemoryRetention::Disabled));
        let m = ExperienceMemory { records: Vec::new(), policies };
        proof {
            assert(m@.policies =~= default_policies());
            assert(m@.records =~= Seq::<MemoryRecordView>::empty());
        }
        m
    }
}

impl Clone for ExperienceMemory {
    fn clone(&self) -> (r: Self)
        ensures
            r@ == self@,
    {
        let mut records: Vec<MemoryRecord> = Vec::new();
        let mut i: usize = 0;
        while i < self.records.len()
            invariant
                i <= self.records@.len(),
                record_views(records@) == record_views(self.records@).take(i as int),
            decreases self.records@.len() - i,
        {
            let r = self.records[i].clone();
            assert(r@ == self.records@[i as int]@);
            let ghost prev = records@;
            records.push(r);
            proof {
                assert(record_views(records@) =~= record_views(prev).push(r@));
                assert(record_views(self.records@)[i as int] == self.records@[i as int]@);
                assert(record_views(records@) =~= record_views(self.records@).take(i + 1));
            }
            i = i + 1;
        }
        proof {
            assert(record_views(self.records@).take(self.records@.len() as int) =~= record_views(self.records@));
        }
        let mut policies: Vec<(MemoryCategory, MemoryRetention)> = Vec::new();
        let mut j: usize = 0;
        while j < self.policies.len()
            invariant
                j <= self.policies@.len(),
                policies@ == self.policies@.take(j as int),
            decreases self.policies@.len() - j,
        {
            policies.push(self.policies[j]);
            proof {
                assert(policies@ =~= self.policies@.take(j + 1));
            }
            j = j + 1;
        }
        proof {
            assert(self.policies@.take(self.policies@.len() as int) =~= self.policies@);
        }
        ExperienceMemory { records, policies }
    }
}

impl ExperienceMemory {
    fn retention(&self, category: MemoryCategory) -> (r: MemoryRetention)
        ensures
            r == retention_in(self@.policies, category),
    {
        let mut i: usize = 0;
        proof {
            assert(self.policies@.subrange(0, self.policies@.len() as int) =~= self.policies@);
        }
        while i < self.policies.len()
            invariant
                i <= self.policies@.len(),
                retention_in(self.policies@, category) == retention_in(
                    self.policies@.subrange(i as int, self.policies@.len() as int),
                    category,
                ),
            decreases self.policies@.len() - i,
        {
            let ghost rest = self.policies@.subrange(i as int, self.policies@.len() as int);
            proof {
                assert(rest.drop_first() =~= self.policies@.subrange(i + 1, self.policies@.len() as int));
            }
            if self.policies[i].0 == category {
                return self.policies[i].1;
            }
            i = i + 1;
        }
        MemoryRetention::Disabled
    }

    /// Keeps an experience unless its category's retention is disabled; the new
    /// record is numbered after the records held.
    pub fn remember(&mut self, category: MemoryCategory, subject: &str, detail: &str, confidence_percent: u8, timestamp_ms: u128)
        ensures
            final(self)@.policies == old(self)@.policies,
            retention_in(old(self)@.policies, category) == MemoryRetention::Disabled ==> final(self)@.records == old(self)@.records,
            retention_in(old(self)@.policies, category) != MemoryRetention::Disabled ==> final(self)@.records == old(self)@.records.push(
                MemoryRecordView {
                    id: memory_id(old(self)@.records.len() + 1),
                    category,
                    subject: subject@,
                    detail: detail@,
                    confidence_percent,
                    timestamp_ms,
                    retention: retention_in(old(self)@.policies, category),
                },
            ),
    {
        let retention = self.retention(category);
        if retention == MemoryRetention::Disabled {
            return;
        }
        let mut id = String::new();
        push_str(&mut id, "mem-");
        push_decimal(&mut id, self.records.len() as u128 + 1);
        let record = MemoryRecord {
            id,
            category,
            subject: owned(subject),
            detail: owned(detail),
            confidence_percent,
            timestamp_ms,
            retention,
        };
        proof {
            assert(record.id@ =~= memory_id(old(self)@.records.len() + 1));
        }
        self.records.push(record);
        proof {
            assert(record_views(self.records@) =~= old(self)@.records.push(record@));
        }
    }

    /// The records held, oldest first.
    pub fn records(&self) -> (r: &[MemoryRecord])
        ensures
            record_views(r@) == self@.records,
    {
        self.records.as_slice()
    }

    /// Removes every record with identifier `id`; tells whether any was removed.
    pub fn forget(&mut self, id: &str) -> (removed: bool)
        ensures
            final(self)@.policies == old(self)@.policies,
            final(self)@.records == without_id(old(self)@.records, id@),
            removed == exists|i: int| 0 <= i < old(self)@.records.len() && #[trigger] old(self)@.records[i].id == id@,
    {
        let ghost all = record_views(self.records@);
        let mut kept: Vec<MemoryRecord> = Vec::new();
        let mut removed = false;
        let mut i: usize = 0;
        while i < self.records.len()
            invariant
                i <= self.records@.len(),
                all == record_views(self.records@),
                record_views(kept@) == without_id(all.take(i as int), id@),
                removed == exists|j: int| 0 <= j < i && #[trigger] all[j].id == id@,
            decreases self.records@.len() - i,
        {
            proof {
                assert(all.take(i + 1).drop_last() =~= all.take(i as int));
                assert(all.take(i + 1).last() == all[i as int]);
            }
            proof {
                assert(all[i as int] == self.records@[i as int]@);
            }
            if text_eq(self.records[i].id.as_str(), id) {
                assert(all[i as int].id == id@);
                removed = true;
            } else {
                kept.push(self.records[i].clone());
                proof {
                    assert(record_views(kept@) =~= without_id(all.take(i as int), id@).push(all[i as int]));
                }
            }
            i = i + 1;
        }
        proof {
            assert(all.take(self.records@.len() as int) =~= all);
        }
        self.records = kept;
        removed
    }
}

#[derive(Clone, Copy, Debug, PartialEq, Eq, Structural)]
pub enum ComputePlacement {
    OnRobot,
    EdgeServer,
    Cloud,
}

/// A unit of work to place. Costs are in cents.
#[derive(Clone, Debug)]
pub struct ComputeRequest {
    pub requires_private_data: bool,
    pub network_available: bool,
    pub latency_sensitive: bool,
    pub estimated_cost_cents: u64,
}

/// Placement policy: cloud only when allowed and within the cost limit, in cents.
#[derive(Clone, Debug)]
pub struct ComputeRouter {
    pub cloud_allowed: bool,
    pub cost_limit_cents: u64,
}

impl Default for ComputeRouter {
    /// Cloud placement disabled, with no budget.
    fn default() -> (r: Self)
        ensures
            !r.cloud_allowed,
            r.cost_limit_cents == 0,
    {
        ComputeRouter { cloud_allowed: false, cost_limit_cents: 0 }
    }
}

/// Where a router places a request.
pub open spec fn placement(router: ComputeRouter, request: ComputeRequest) -> ComputePlacement {
    if request.requires_private_data || request.latency_sensitive || !request.network_available {
        ComputePlacement::OnRobot
    } else if router.cloud_allowed && request.estimated_cost_cents <= router.cost_limit_cents {
        ComputePlacement::Cloud
    } else {
        ComputePlacement::EdgeServer
    }
}

/// Private, latency-sensitive or offline work always stays on the robot, whatever
/// the router allows; work goes to the cloud only when the router allows it and it
/// fits the budget; other work that may leave the robot goes to the edge server.
pub proof fn law_placement(router: ComputeRouter, request: ComputeRequest)
    ensures
        request.requires_private_data || request.latency_sensitive || !request.network_available
            ==> placement(router, request) == ComputePlacement::OnRobot,
        placement(router, request) == ComputePlacement::Cloud ==> router.cloud_allowed
            && request.estimated_cost_cents <= router.cost_limit_cents && !request.requires_private_data
            && !request.latency_sensitive && request.network_available,
        placement(router, request) == ComputePlacement::OnRobot ==> request.requires_private_data
            || request.latency_sensitive || !request.network_available,
        !request.requires_private_data && !request.latency_sensitive && request.network_available && !(
        router.cloud_allowed && request.estimated_cost_cents <= router.cost_limit_cents)
            ==> placement(router, request) == ComputePlacement::EdgeServer,
{
}

impl ComputeRouter {
    /// Private, latency-sensitive or offline work stays on the robot; otherwise the
    /// cloud when allowed and affordable, else the edge server.
    pub fn select(&self, request: &ComputeRequest) -> (p: ComputePlacement)
        ensures
            p == placement(*self, *request),
            request.requires_private_data ==> p == ComputePlacement::OnRobot,
            request.latency_sensitive ==> p == ComputePlacement::OnRobot,
            !request.network_available ==> p == ComputePlacement::OnRobot,
            p == ComputePlacement::Cloud ==> self.cloud_allowed && request.estimated_cost_cents <= self.cost_limit_cents,
    {
        if request.requires_private_data || request.latency_sensitive || !request.network_available {
            ComputePlacement::OnRobot
        } else if self.cloud_allowed && request.estimated_cost_cents <= self.cost_limit_cents {
            ComputePlacement::Cloud
        } else {
            ComputePlacement::EdgeServer
        }
    }
}

#[derive(Clone, Copy, Debug, PartialEq, Eq, Structural)]
pub enum AutomationClass {
    Informational,
    System,
    Motion,
    Manipulation,
    SafetyCritical,
}

/// What fires an automation. Battery thresholds are whole percent.
#[derive(Clone, Debug)]
pub enum AutomationTrigger {
    BatteryBelow(u8),
    SensorDegraded(String),
    DoorStateChanged(String),
}

#[derive(Clone, Debug)]
pub enum AutomationAction {
    RunSkill(String),
    RebuildSensePlan,
    NotifyOperator(String),
}

#[derive(Clone, Debug)]
pub struct AutomationRule {
    pub id: String,
    pub class: AutomationClass,
    pub trigger: AutomationTrigger,
    pub actions: Vec<AutomationAction>,
    pub enabled: bool,
}


#[derive(Debug)]
pub struct Goal {
    pub id: String,
    pub request: String,
    pub objective: String,
}

pub ghost struct GoalView {
    pub id: Seq<char>,
    pub request: Seq<char>,
    pub objective: Seq<char>,
}

impl View for Goal {
    type V = GoalView;

    open spec fn view(&self) -> GoalView {
        GoalView { id: self.id@, request: self.request@, objective: self.objective@ }
    }
}

impl Clone for Goal {
    fn clone(&self) -> (r: Self)
        ensures
            r@ == self@,
    {
        Goal { id: self.id.clone(), request: self.request.clone(), objective: self.objective.clone() }
    }
}

/// One step of a plan: a skill, what it acts on, the capability it exercises and
/// the permission it needs, if any.
#[derive(Debug)]
pub struct PlanStep {
    pub skill: String,
    pub target: Option<String>,
    pub capability: AutonomyCapability,
    pub permission: Option<AutonomyPermission>,
    pub rationale: String,
}

pub ghost struct PlanStepView {
    pub skill: Seq<char>,
    pub target: Option<Seq<char>>,
    pub capability: AutonomyCapability,
    pub permission: Option<AutonomyPermission>,
    pub rationale: Seq<char>,
}

/// The view of an optional text.
pub open spec fn opt_text(t: Option<String>) -> Option<Seq<char>> {
    match t {
        Some(s) => Some(s@),
        None => None,
    }
}

impl View for PlanStep {
    type V = PlanStepView;

    open spec fn view(&self) -> PlanStepView {
        PlanStepView {
            skill: self.skill@,
            target: opt_text(self.target),
            capability: self.capability,
            permission: self.permission,
            rationale: self.rationale@,
        }
    }
}

impl Clone for PlanStep {
    fn clone(&self) -> (r: Self)
        ensures
            r@ == self@,
    {
        let target = match &self.target {
            Some(t) => Some(t.clone()),
            None => None,
        };
        PlanStep {
            skill: self.skill.clone(),
            target,
            capability: self.capability,
            permission: self.permission,
            rationale: self.rationale.clone(),
        }
    }
}

/// The views of a list of plan steps.
pub open spec fn step_views(steps: Seq<PlanStep>) -> Seq<PlanStepView> {
    steps.map_values(|s: PlanStep| s@)
}

fn clone_steps(steps: &Vec<PlanStep>) -> (r: Vec<PlanStep>)
    ensures
        step_views(r@) == step_views(steps@),
{
    let mut r: Vec<PlanStep> = Vec::new();
    let mut i: usize = 0;
    while i < steps.len()
        invariant
            i <= steps@.len(),
            step_views(r@) == step_views(steps@).take(i as int),
        decreases steps@.len() - i,
    {
        let s = steps[i].clone();
        let ghost prev = r@;
        r.push(s);
        proof {
            assert(step_views(r@) =~= step_views(prev).push(s@));
            assert(step_views(steps@)[i as int] == steps@[i as int]@);
            assert(step_views(r@) =~= step_views(steps@).take(i + 1));
        }
        i = i + 1;
    }
    proof {
        assert(step_views(steps@).take(steps@.len() as int) =~= step_views(steps@));
    }
    r
}

/// A compiled goal: what will run, what it needs, and where it stands.
#[derive(Debug)]
pub struct GoalPlan {
    pub goal: Goal,
    pub steps: Vec<PlanStep>,
    pub required_capabilities: Vec<String>,
    pub expected_duration_s: u64,
    pub risk: GoalRisk,
    pub state: PlanState,
}

pub ghost struct GoalPlanView {
    pub goal: GoalView,
    pub steps: Seq<PlanStepView>,
    pub required_capabilities: Seq<Seq<char>>,
    pub expected_duration_s: u64,
    pub risk: GoalRisk,
    pub state: PlanState,
}

impl View for GoalPlan {
    type V = GoalPlanView;

    open spec fn view(&self) -> GoalPlanView {
        GoalPlanView {
            goal: self.goal@,
            steps: step_views(self.steps@),
            required_capabilities: texts(self.required_capabilities@),
            expected_duration_s: self.expected_duration_s,
            risk: self.risk,
            state: self.state,
        }
    }
}

impl Clone for GoalPlan {
    fn clone(&self) -> (r: Self)
        ensures
            r@ == self@,
    {
        GoalPlan {
            goal: self.goal.clone(),
            steps: clone_steps(&self.steps),
            required_capabilities: clone_texts(&self.required_capabilities),
            expected_duration_s: self.expected_duration_s,
            risk: self.risk,
            state: self.state,
        }
    }
}

/// A request for an operator to approve the gated steps of a plan.
#[derive(Debug)]
pub struct ApprovalRequest {
    pub id: String,
    pub goal_id: String,
    pub reason: String,
    pub steps: Vec<String>,
}

pub ghost struct ApprovalView {
    pub id: Seq<char>,
    pub goal_id: Seq<char>,
    pub reason: Seq<char>,
    pub steps: Seq<Seq<char>>,
}

impl View for ApprovalRequest {
    type V = ApprovalView;

    open spec fn view(&self) -> ApprovalView {
        ApprovalView { id: self.id@, goal_id: self.goal_id@, reason: self.reason@, steps: texts(self.steps@) }
    }
}

impl Clone for ApprovalRequest {
    fn clone(&self) -> (r: Self)
        ensures
            r@ == self@,
    {
        ApprovalRequest {
            id: self.id.clone(),
            goal_id: self.goal_id.clone(),
            reason: self.reason.clone(),
            steps: clone_texts(&self.steps),
        }
    }
}

#[derive(Clone, Debug, PartialEq, Eq)]
pub enum AutonomyError {
    ApprovalRequired(String),
    Denied(String),
    InvalidApproval(String),
}

/// Why a goal was not authorized to run: the policy refused it, or it needs an
/// operator approval that was not given.
#[derive(Debug)]
pub enum GoalRefusal {
    Policy(AutonomyError),
    ApprovalRequired(ApprovalRequest),
}

#[derive(Clone, Debug)]
pub struct Routine {
    pub id: String,
    pub name: String,
    pub steps: Vec<PlanStep>,
    pub enabled: bool,
}

// ---------------------------------------------------------------- goal compilation

/// A plan step given by its parts.
pub open spec fn sv(skill: Seq<char>, target: Option<Seq<char>>, capability: AutonomyCapability, permission: Option<AutonomyPermission>, rationale: Seq<char>) -> PlanStepView {
    PlanStepView { skill, target, capability, permission, rationale }
}

/// Which plan a request compiles to: 0 fetch an object, 1 inspect, 2 self-check.
pub open spec fn goal_kind(request: Seq<char>) -> nat {
    let l = ascii_lower(request);
    if contains_text(l, "blue"@) || contains_text(l, "bring"@) || contains_text(l, "container"@) {
        0
    } else if contains_text(l, "explore"@) || contains_text(l, "clear"@) || contains_text(l, "inspect"@) {
        1
    } else {
        2
    }
}

pub open spec fn kind_objective(kind: nat) -> Seq<char> {
    if kind == 0 {
        "Locate, retrieve, and deliver the requested object"@
    } else if kind == 1 {
        "Inspect the permitted environment and report observations"@
    } else {
        "Execute a safe, capability-compatible inspection"@
    }
}

pub open spec fn kind_steps(kind: nat) -> Seq<PlanStepView> {
    if kind == 0 {
        seq![
            sv("inspect_object"@, Some("blue_container"@), AutonomyCapability::Perception, None, "confirm target identity"@),
            sv("walk_to"@, Some("table"@), AutonomyCapability::Navigation, None, "approach known target area"@),
            sv("pick_up"@, Some("blue_container"@), AutonomyCapability::Manipulation, Some(AutonomyPermission::MoveObjects), "acquire target"@),
            sv("return_home"@, None, AutonomyCapability::Navigation, None, "return to home location"@),
            sv("place_object"@, Some("blue_container"@), AutonomyCapability::Manipulation, Some(AutonomyPermission::MoveObjects), "deliver target"@),
        ]
    } else if kind == 1 {
        seq![
            sv("scan_area"@, Some("workspace"@), AutonomyCapability::Perception, None, "observe permitted area"@),
            sv("structure_scan"@, None, AutonomyCapability::Perception, None, "update structural context"@),
            sv("return_home"@, None, AutonomyCapability::Navigation, None, "return to safe home"@),
        ]
    } else {
        seq![sv("self_check"@, None, AutonomyCapability::Perception, None, "verify robot readiness"@)]
    }
}

pub open spec fn kind_risk(kind: nat) -> GoalRisk {
    if kind == 0 {
        GoalRisk::Medium
    } else {
        GoalRisk::Low
    }
}

/// The identifier of the `n`-th compiled goal.
pub open spec fn goal_id(n: nat) -> Seq<char> {
    "goal-"@ + decimal(n)
}

/// The plan a request compiles to under identifier `id`, in preview.
pub open spec fn compiled_plan(id: Seq<char>, request: Seq<char>) -> GoalPlanView {
    let kind = goal_kind(request);
    GoalPlanView {
        goal: GoalView { id, request, objective: kind_objective(kind) },
        steps: kind_steps(kind),
        required_capabilities: seq!["vision"@, "mobility"@],
        expected_duration_s: 120,
        risk: kind_risk(kind),
        state: PlanState::Preview,
    }
}

fn make_step(skill: &str, target: Option<&str>, capability: AutonomyCapability, permission: Option<AutonomyPermission>, rationale: &str) -> (s: PlanStep)
    ensures
        s@ == sv(skill@, match target { Some(t) => Some(t@), None => None }, capability, permission, rationale@),
{
    let target = match target {
        Some(t) => Some(owned(t)),
        None => None,
    };
    PlanStep { skill: owned(skill), target, capability, permission, rationale: owned(rationale) }
}

fn plan_steps(kind: u8) -> (steps: Vec<PlanStep>)
    requires
        kind <= 2,
    ensures
        step_views(steps@) == kind_steps(kind as nat),
{
    let mut v: Vec<PlanStep> = Vec::new();
    if kind == 0 {
        v.push(make_step("inspect_object", Some("blue_container"), AutonomyCapability::Perception, None, "confirm target identity"));
        v.push(make_step("walk_to", Some("table"), AutonomyCapability::Navigation, None, "approach known target area"));
        v.push(make_step("pick_up", Some("blue_container"), AutonomyCapability::Manipulation, Some(AutonomyPermission::MoveObjects), "acquire target"));
        v.push(make_step("return_home", None, AutonomyCapability::Navigation, None, "return to home location"));
        v.push(make_step("place_object", Some("blue_container"), AutonomyCapability::Manipulation, Some(AutonomyPermission::MoveObjects), "deliver target"));
    } else if kind == 1 {
        v.push(make_step("scan_area", Some("workspace"), AutonomyCapability::Perception, None, "observe permitted area"));
        v.push(make_step("structure_scan", None, AutonomyCapability::Perception, None, "update structural context"));
        v.push(make_step("return_home", None, AutonomyCapability::Navigation, None, "return to safe home"));
    } else {
        v.push(make_step("self_check", None, AutonomyCapability::Perception, None, "verify robot readiness"));
    }
    proof {
        assert(step_views(v@) =~= kind_steps(kind as nat));
    }
    v
}

// ---------------------------------------------------------------- approval

/// What one step adds to the steps awaiting approval, or why the plan is refused.
pub open spec fn step_outcome(policy: AutonomyPolicy, s: PlanStepView, acc: Seq<Seq<char>>) -> Result<Seq<Seq<char>>, Seq<char>> {
    let g = grant_in(policy.grants@, s.capability);
    if g == ExecutionGrant::Denied {
        Err(s.skill + " is denied by autonomy policy"@)
    } else {
        let acc1 = if g == ExecutionGrant::Manual || g == ExecutionGrant::Supervised {
            acc.push(s.skill)
        } else {
            acc
        };
        match s.permission {
            Some(p) => match permission_in(policy.permissions@, p) {
                PermissionDecision::Denied => Err("permission denied for "@ + s.skill),
                PermissionDecision::Ask => Ok(acc1.push(s.skill)),
                PermissionDecision::Allowed => Ok(acc1),
            },
            None => Ok(acc1),
        }
    }
}

/// The skills of a plan that need approval, in order, or the first refusal.
pub open spec fn approval_scan(policy: AutonomyPolicy, steps: Seq<PlanStepView>) -> Result<Seq<Seq<char>>, Seq<char>>
    decreases steps.len(),
{
    if steps.len() == 0 {
        Ok(Seq::empty())
    } else {
        match approval_scan(policy, steps.drop_last()) {
            Err(e) => Err(e),
            Ok(acc) => step_outcome(policy, steps.last(), acc),
        }
    }
}

/// The identifier of the approval request for a goal.
pub open spec fn approval_id(goal: Seq<char>) -> Seq<char> {
    "approval-"@ + goal
}

/// Why approvals are requested.
pub open spec fn approval_reason() -> Seq<char> {
    "Plan includes supervised autonomy or an approval-gated permission."@
}

/// The compiled plans and the open approval requests of an intelligence layer.
pub ghost struct PlanBook {
    pub plans: Map<Seq<char>, GoalPlanView>,
    pub approvals: Map<Seq<char>, ApprovalView>,
}

/// What approving `id` does: the request is consumed and its plan becomes approved;
/// an unknown request, or one whose plan is gone, is refused with the missing key.
pub open spec fn approve_outcome(book: PlanBook, id: Seq<char>) -> (PlanBook, Result<GoalPlanView, Seq<char>>) {
    if !book.approvals.contains_key(id) {
        (book, Err(id))
    } else {
        let req = book.approvals[id];
        let approvals = book.approvals.remove(id);
        if !book.plans.contains_key(req.goal_id) {
            (PlanBook { plans: book.plans, approvals }, Err(req.goal_id))
        } else {
            let p = GoalPlanView { state: PlanState::Approved, ..book.plans[req.goal_id] };
            (PlanBook { plans: book.plans.insert(req.goal_id, p), approvals }, Ok(p))
        }
    }
}

/// What asking for approval of `plan` does: a refusal leaves everything as it was;
/// a plan with nothing to approve is approved; otherwise the plan awaits the
/// returned request, which is filed under its identifier.
pub open spec fn approval_outcome(policy: AutonomyPolicy, book: PlanBook, plan: GoalPlanView)
    -> (PlanBook, GoalPlanView, Result<Option<ApprovalView>, Seq<char>>)
{
    match approval_scan(policy, plan.steps) {
        Err(msg) => (book, plan, Err(msg)),
        Ok(gated) => if gated.len() == 0 {
            let p = GoalPlanView { state: PlanState::Approved, ..plan };
            (PlanBook { plans: book.plans.insert(plan.goal.id, p), approvals: book.approvals }, p, Ok(None))
        } else {
            let p = GoalPlanView { state: PlanState::AwaitingApproval, ..plan };
            let req = ApprovalView {
                id: approval_id(plan.goal.id),
                goal_id: plan.goal.id,
                reason: approval_reason(),
                steps: gated,
            };
            (
                PlanBook { plans: book.plans.insert(plan.goal.id, p), approvals: book.approvals.insert(req.id, req) },
                p,
                Ok(Some(req)),
            )
        },
    }
}

/// The policy a shipped profile starts with.
pub open spec fn shipped_policy(p: AutonomyPolicy, profile: IntelligenceProfile) -> bool {
    &&& p.profile == profile
    &&& p.grants@ == profile_grants(profile)
    &&& p.permissions@ == profile_permissions(profile)
    &&& p.allowed_zones.as_set() == profile_zones()
    &&& p.speed_scale_percent == (if profile == IntelligenceProfile::Manual { 50u8 } else { 100u8 })
    &&& p.minimum_skill_validation == SkillLifecycle::SimulationValidated
}

/// Once a prefix of the steps is refused, the whole plan is refused the same way.
pub proof fn lemma_scan_refusal_sticks(policy: AutonomyPolicy, steps: Seq<PlanStepView>, k: int)
    requires
        0 <= k <= steps.len(),
        approval_scan(policy, steps.take(k)) is Err,
    ensures
        approval_scan(policy, steps) == approval_scan(policy, steps.take(k)),
    decreases steps.len() - k,
{
    if k < steps.len() {
        assert(steps.take(k + 1).drop_last() =~= steps.take(k));
        lemma_scan_refusal_sticks(policy, steps, k + 1);
    } else {
        assert(steps.take(k) =~= steps);
    }
}

/// The intelligence layer: policy, memory, compute placement, routines and rules,
/// plus the plans it compiled and the approvals it is waiting for.
#[derive(Clone, Debug)]
pub struct IntelligenceLayer {
    pub policy: AutonomyPolicy,
    pub memory: ExperienceMemory,
    pub compute: ComputeRouter,
    pub routines: TextMap<Routine>,
    pub rules: Vec<AutomationRule>,
    plans: TextMap<GoalPlan>,
    approvals: TextMap<ApprovalRequest>,
    next_goal: u64,
}

/// The observable state of an intelligence layer.
pub ghost struct LayerView {
    pub policy: AutonomyPolicy,
    pub memory: MemoryView,
    pub compute: ComputeRouter,
    pub routines: Map<Seq<char>, Routine>,
    pub rules: Seq<AutomationRule>,
    pub book: PlanBook,
    pub goal_counter: u64,
}

impl View for IntelligenceLayer {
    type V = LayerView;

    closed spec fn view(&self) -> LayerView {
        LayerView {
            policy: self.policy,
            memory: self.memory@,
            compute: self.compute,
            routines: self.routines.as_map(),
            rules: self.rules@,
            book: PlanBook {
                plans: Map::new(|k: Seq<char>| self.plans.lookup(k) is Some, |k: Seq<char>| (self.plans.lookup(k)->0)@),
                approvals: Map::new(|k: Seq<char>| self.approvals.lookup(k) is Some, |k: Seq<char>| (self.approvals.lookup(k)->0)@),
            },
            goal_counter: self.next_goal,
        }
    }
}

/// A fresh layer under the shipped policy of `profile`.
pub open spec fn fresh_layer(l: LayerView, profile: IntelligenceProfile) -> bool {
    &&& shipped_policy(l.policy, profile)
    &&& l.memory.records.len() == 0
    &&& l.memory.policies == default_policies()
    &&& !l.compute.cloud_allowed
    &&& l.compute.cost_limit_cents == 0
    &&& l.routines == Map::<Seq<char>, Routine>::empty()
    &&& l.rules.len() == 0
    &&& l.book.plans == Map::<Seq<char>, GoalPlanView>::empty()
    &&& l.book.approvals == Map::<Seq<char>, ApprovalView>::empty()
    &&& l.goal_counter == 1
}

impl IntelligenceLayer {
    /// A layer with the supervised profile.
    pub fn supervised() -> (l: Self)
        ensures
            fresh_layer(l@, IntelligenceProfile::Supervised),
    {
        Self::new(IntelligenceProfile::Supervised)
    }

    /// A layer with the shipped policy of `profile`, default memory, cloud placement
    /// disabled, and nothing compiled yet; goals are numbered from 1.
    pub fn new(profile: IntelligenceProfile) -> (l: Self)
        ensures
            fresh_layer(l@, profile),
    {
        let l = IntelligenceLayer {
            policy: AutonomyPolicy::for_profile(profile),
            memory: ExperienceMemory::default(),
            compute: ComputeRouter::default(),
            routines: TextMap::new(),
            rules: Vec::new(),
            plans: TextMap::new(),
            approvals: TextMap::new(),
            next_goal: 1,
        };
        proof {
            assert(l@.book.plans =~= Map::<Seq<char>, GoalPlanView>::empty());
            assert(l@.book.approvals =~= Map::<Seq<char>, ApprovalView>::empty());
            assert(l@.routines =~= Map::<Seq<char>, Routine>::empty());
        }
        l
    }

    /// Compiles a natural-language request into a plan preview and files it under
    /// the next goal identifier.
    pub fn compile_goal(&mut self, request: &str) -> (plan: GoalPlan)
        requires
            old(self)@.goal_counter < u64::MAX,
        ensures
            plan@ == compiled_plan(goal_id(old(self)@.goal_counter as nat), request@),
            final(self)@ == (LayerView {
                goal_counter: (old(self)@.goal_counter + 1) as u64,
                book: PlanBook {
                    plans: old(self)@.book.plans.insert(plan@.goal.id, plan@),
                    approvals: old(self)@.book.approvals,
                },
                ..old(self)@
            }),
    {
        let lower = to_ascii_lowercase(request);
        let mut id = String::new();
        push_str(&mut id, "goal-");
        push_decimal(&mut id, self.next_goal as u128);
        self.next_goal = self.next_goal + 1;
        let l = lower.as_str();
        let kind: u8 = if str_contains(l, "blue") || str_contains(l, "bring") || str_contains(l, "container") {
            0
        } else if str_contains(l, "explore") || str_contains(l, "clear") || str_contains(l, "inspect") {
            1
        } else {
            2
        };
        let objective = if kind == 0 {
            owned("Locate, retrieve, and deliver the requested object")
        } else if kind == 1 {
            owned("Inspect the permitted environment and report observations")
        } else {
            owned("Execute a safe, capability-compatible inspection")
        };
        let risk = if kind == 0 { GoalRisk::Medium } else { GoalRisk::Low };
        let mut required_capabilities: Vec<String> = Vec::new();
        required_capabilities.push(owned("vision"));
        required_capabilities.push(owned("mobility"));
        let steps = plan_steps(kind);
        let plan = GoalPlan {
            goal: Goal { id: id.clone(), request: owned(request), objective },
            steps,
            required_capabilities,
            expected_duration_s: 120,
            risk,
            state: PlanState::Preview,
        };
        proof {
            assert(id@ =~= goal_id(old(self)@.goal_counter as nat));
            assert(texts(plan.required_capabilities@) =~= seq!["vision"@, "mobility"@]);
            assert(kind as nat == goal_kind(request@));
        }
        let stored = plan.clone();
        self.plans.insert(id, stored);
        proof {
            assert(self@.book.plans =~= old(self)@.book.plans.insert(plan@.goal.id, plan@));
            assert(self@.book.approvals =~= old(self)@.book.approvals);
        }
        plan
    }

    /// Checks every step of `plan` against the policy. A denied capability or
    /// permission refuses the plan and changes nothing. Otherwise the skills that
    /// run under manual or supervised grants, or need an asked permission, are
    /// gated: with none, the plan is approved; with some, it awaits the returned
    /// approval request. The plan is filed either way.
    pub fn require_approval(&mut self, plan: &mut GoalPlan) -> (r: Result<Option<ApprovalRequest>, AutonomyError>)
        ensures
            final(plan)@ == approval_outcome(old(self)@.policy, old(self)@.book, old(plan)@).1,
            final(self)@ == (LayerView { book: approval_outcome(old(self)@.policy, old(self)@.book, old(plan)@).0, ..old(self)@ }),
            match approval_outcome(old(self)@.policy, old(self)@.book, old(plan)@).2 {
                Err(m) => r matches Err(AutonomyError::Denied(e)) && e@ == m,
                Ok(None) => r matches Ok(None),
                Ok(Some(req)) => r matches Ok(Some(q)) && q@ == req,
            },
    {
        let ghost steps = old(plan)@.steps;
        let mut gated: Vec<String> = Vec::new();
        let mut i: usize = 0;
        proof {
            assert(steps.take(0) =~= Seq::<PlanStepView>::empty());
            assert(texts(gated@) =~= Seq::<Seq<char>>::empty());
        }
        while i < plan.steps.len()
            invariant
                i <= plan.steps@.len(),
                steps == step_views(plan.steps@),
                plan@ == old(plan)@,
                self@ == old(self)@,
                approval_scan(self.policy, steps.take(i as int)) == Ok::<Seq<Seq<char>>, Seq<char>>(texts(gated@)),
            decreases plan.steps@.len() - i,
        {
            let step = &plan.steps[i];
            let ghost sv = steps[i as int];
            proof {
                assert(sv == step@);
                assert(steps.take(i + 1).drop_last() =~= steps.take(i as int));
                assert(steps.take(i + 1).last() == sv);
            }
            let g = self.policy.grant(step.capability);
            if g == ExecutionGrant::Denied {
                let mut msg = step.skill.clone();
                push_str(&mut msg, " is denied by autonomy policy");
                proof {
                    lemma_scan_refusal_sticks(self.policy, steps, i + 1);
                }
                return Err(AutonomyError::Denied(msg));
            }
            let ghost before = texts(gated@);
            if g == ExecutionGrant::Manual || g == ExecutionGrant::Supervised {
                gated.push(step.skill.clone());
                proof {
                    assert(texts(gated@) =~= before.push(sv.skill));
                }
            }
            let ghost mid = texts(gated@);
            match step.permission {
                Some(p) => {
                    let d = self.policy.permission(p);
                    if d == PermissionDecision::Denied {
                        let mut msg = String::new();
                        push_str(&mut msg, "permission denied for ");
                        push_str(&mut msg, step.skill.as_str());
                        proof {
                            lemma_scan_refusal_sticks(self.policy, steps, i + 1);
                        }
                        return Err(AutonomyError::Denied(msg));
                    } else if d == PermissionDecision::Ask {
                        gated.push(step.skill.clone());
                        proof {
                            assert(texts(gated@) =~= mid.push(sv.skill));
                        }
                    }
                },
                None => {},
            }
            i = i + 1;
        }
        proof {
            assert(steps.take(plan.steps@.len() as int) =~= steps);
        }
        if gated.len() == 0 {
            plan.state = PlanState::Approved;
            let stored = plan.clone();
            self.plans.insert(plan.goal.id.clone(), stored);
            proof {
                assert(self@.book.plans =~= old(self)@.book.plans.insert(old(plan)@.goal.id, plan@));
                assert(self@.book.approvals =~= old(self)@.book.approvals);
            }
            return Ok(None);
        }
        let mut id = String::new();
        push_str(&mut id, "approval-");
        push_str(&mut id, plan.goal.id.as_str());
        let request = ApprovalRequest {
            id,
            goal_id: plan.goal.id.clone(),
            reason: owned("Plan includes supervised autonomy or an approval-gated permission."),
            steps: gated,
        };
        proof {
            assert(request.id@ =~= approval_id(old(plan)@.goal.id));
        }
        plan.state = PlanState::AwaitingApproval;
        let stored = plan.clone();
        self.plans.insert(plan.goal.id.clone(), stored);
        let filed = request.clone();
        self.approvals.insert(request.id.clone(), filed);
        proof {
            assert(self@.book.plans =~= old(self)@.book.plans.insert(old(plan)@.goal.id, plan@));
            assert(self@.book.approvals =~= old(self)@.book.approvals.insert(request@.id, request@));
        }
        Ok(Some(request))
    }

    /// Consumes the approval request `approval_id` and approves its plan.
    pub fn approve(&mut self, approval_id: &str) -> (r: Result<GoalPlan, AutonomyError>)
        ensures
            final(self)@ == (LayerView { book: approve_outcome(old(self)@.book, approval_id@).0, ..old(self)@ }),
            match approve_outcome(old(self)@.book, approval_id@).1 {
                Ok(p) => r matches Ok(q) && q@ == p,
                Err(k) => r matches Err(AutonomyError::InvalidApproval(e)) && e@ == k,
            },
    {
        let request = match self.approvals.remove(approval_id) {
            Some(request) => request,
            None => {
                proof {
                    assert(self@.book.approvals =~= old(self)@.book.approvals);
                }
                return Err(AutonomyError::InvalidApproval(owned(approval_id)));
            },
        };
        proof {
            assert(self@.book.approvals =~= old(self)@.book.approvals.remove(approval_id@));
            assert(old(self)@.book.approvals[approval_id@] == request@);
        }
        match self.plans.position(request.goal_id.as_str()) {
            None => Err(AutonomyError::InvalidApproval(request.goal_id.clone())),
            Some(i) => {
                let mut p = self.plans.value_at(i).clone();
                p.state = PlanState::Approved;
                let out = p.clone();
                self.plans.set_value(i, p);
                proof {
                    assert(self@.book.plans =~= old(self)@.book.plans.insert(request@.goal_id, out@));
                }
                Ok(out)
            },
        }
    }

    /// Compiles `request` and authorizes the plan to run: the policy must permit
    /// every step, and a plan that needs approval runs only when the operator has
    /// approved it, in which case the approval is filed and consumed at once. The
    /// plan is returned with the request that approved it, if any.
    pub fn authorize_goal(&mut self, request: &str, operator_approved: bool) -> (r: Result<(GoalPlan, Option<ApprovalRequest>), GoalRefusal>)
        requires
            old(self)@.goal_counter < u64::MAX,
        ensures
            ({
                let id = goal_id(old(self)@.goal_counter as nat);
                let compiled = compiled_plan(id, request@);
                let filed = PlanBook { plans: old(self)@.book.plans.insert(id, compiled), approvals: old(self)@.book.approvals };
                let checked = approval_outcome(old(self)@.policy, filed, compiled);
                &&& final(self)@.goal_counter == old(self)@.goal_counter + 1
                &&& final(self)@.policy == old(self)@.policy
                &&& final(self)@.memory == old(self)@.memory
                &&& final(self)@.compute == old(self)@.compute
                &&& final(self)@.routines == old(self)@.routines
                &&& final(self)@.rules == old(self)@.rules
                &&& match checked.2 {
                    Err(m) => r matches Err(GoalRefusal::Policy(AutonomyError::Denied(e))) && e@ == m
                        && final(self)@.book == checked.0,
                    Ok(None) => r matches Ok((p, None)) && p@ == checked.1 && final(self)@.book == checked.0,
                    Ok(Some(req)) => if operator_approved {
                        let approved = approve_outcome(checked.0, req.id);
                        &&& approved.1 == Ok::<GoalPlanView, Seq<char>>(GoalPlanView { state: PlanState::Approved, ..compiled })
                        &&& r matches Ok((p, Some(q))) && p@ == GoalPlanView { state: PlanState::Approved, ..compiled }
                            && q@ == req
                        &&& final(self)@.book == approved.0
                    } else {
                        r matches Err(GoalRefusal::ApprovalRequired(q)) && q@ == req && final(self)@.book == checked.0
                    },
                }
            }),
            r is Ok ==> (approval_scan(old(self)@.policy, kind_steps(goal_kind(request@))) matches Ok(gated)
                && (gated.len() > 0 ==> operator_approved)),
    {
        let mut plan = self.compile_goal(request);
        let ghost after_compile = self@;
        let approval = match self.require_approval(&mut plan) {
            Ok(a) => a,
            Err(e) => return Err(GoalRefusal::Policy(e)),
        };
        match approval {
            None => Ok((plan, None)),
            Some(req) => {
                if !operator_approved {
                    return Err(GoalRefusal::ApprovalRequired(req));
                }
                proof {
                    law_requested_approval_approves_the_plan(after_compile.policy, after_compile.book, compiled_plan(
                        goal_id(old(self)@.goal_counter as nat),
                        request@,
                    ));
                }
                match self.approve(req.id.as_str()) {
                    Ok(approved) => Ok((approved, Some(req))),
                    Err(e) => Err(GoalRefusal::Policy(e)),
                }
            },
        }
    }

    /// The number the next compiled goal gets.
    pub fn next_goal_number(&self) -> (n: u64)
        ensures
            n == self@.goal_counter,
    {
        self.next_goal
    }

    /// The plan filed under `goal_id`.
    pub fn plan(&self, goal_id: &str) -> (r: Option<&GoalPlan>)
        ensures
            r matches Some(p) ==> self@.book.plans.contains_key(goal_id@) && self@.book.plans[goal_id@] == p@,
            r is None ==> !self@.book.plans.contains_key(goal_id@),
    {
        self.plans.get(goal_id)
    }
}


// ---------------------------------------------------------------- laws

/// Every shipped profile denies leaving the allowed zones and keeps learning in
/// simulation.
pub proof fn law_shipped_policies_fence_autonomy(p: AutonomyPolicy, profile: IntelligenceProfile)
    requires
        shipped_policy(p, profile),
    ensures
        permission_in(p.permissions@, AutonomyPermission::LeaveZone) == PermissionDecision::Denied,
        grant_in(p.grants@, AutonomyCapability::Learning) == ExecutionGrant::SimulationOnly,
{
    reveal_with_fuel(permission_in, 4);
    reveal_with_fuel(grant_in, 5);
}

/// Under the supervised profile, a plan with any step outside learning is either
/// refused or gated behind an approval: it is never approved on its own.
pub proof fn law_supervised_plans_need_approval(policy: AutonomyPolicy, steps: Seq<PlanStepView>, k: int)
    requires
        shipped_policy(policy, IntelligenceProfile::Supervised),
        0 <= k < steps.len(),
        steps[k].capability != AutonomyCapability::Learning,
    ensures
        approval_scan(policy, steps) matches Ok(gated) ==> gated.len() > 0,
{
    if approval_scan(policy, steps) is Ok {
        lemma_scan_monotone(policy, steps, k + 1);
        lemma_scan_monotone(policy, steps, k);
        assert(steps.take(k + 1).drop_last() =~= steps.take(k));
        assert(steps.take(k + 1).last() == steps[k]);
        assert(grant_in(policy.grants@, steps[k].capability) == ExecutionGrant::Supervised) by {
            reveal_with_fuel(grant_in, 6);
        }
    }
}

/// A plan with a step whose capability or permission the policy denies is refused,
/// whatever else it holds: a denial takes precedence over any grant or approval.
pub proof fn law_denial_refuses_the_plan(policy: AutonomyPolicy, steps: Seq<PlanStepView>, k: int)
    requires
        0 <= k < steps.len(),
        grant_in(policy.grants@, steps[k].capability) == ExecutionGrant::Denied
            || (steps[k].permission matches Some(p) && permission_in(policy.permissions@, p) == PermissionDecision::Denied),
    ensures
        approval_scan(policy, steps) is Err,
{
    if approval_scan(policy, steps) is Ok {
        lemma_scan_monotone(policy, steps, k + 1);
        lemma_scan_monotone(policy, steps, k);
        assert(steps.take(k + 1).drop_last() =~= steps.take(k));
        assert(steps.take(k + 1).last() == steps[k]);
    }
}

/// A prefix of an approved scan is approved too, and gates no more skills.
pub proof fn lemma_scan_monotone(policy: AutonomyPolicy, steps: Seq<PlanStepView>, k: int)
    requires
        0 <= k <= steps.len(),
    ensures
        approval_scan(policy, steps) matches Ok(b) ==> (approval_scan(policy, steps.take(k)) matches Ok(a) && a.len() <= b.len()),
    decreases steps.len() - k,
{
    if k == steps.len() {
        assert(steps.take(k) =~= steps);
    } else {
        lemma_scan_monotone(policy, steps, k + 1);
        assert(steps.take(k + 1).drop_last() =~= steps.take(k));
        if approval_scan(policy, steps.take(k)) is Err {
            lemma_scan_refusal_sticks(policy, steps, k);
        }
    }
}

/// Approving the request that an approval check returned approves exactly that
/// plan and consumes the request.
pub proof fn law_requested_approval_approves_the_plan(policy: AutonomyPolicy, book: PlanBook, plan: GoalPlanView)
    ensures
        match approval_outcome(policy, book, plan).2 {
            Ok(Some(req)) => {
                let after = approve_outcome(approval_outcome(policy, book, plan).0, req.id);
                &&& after.1 == Ok::<GoalPlanView, Seq<char>>(GoalPlanView { state: PlanState::Approved, ..plan })
                &&& !after.0.approvals.contains_key(req.id)
                &&& after.0.plans[plan.goal.id].state == PlanState::Approved
            },
            _ => true,
        },
{
}

/// An approval request can be used once: approving it again is refused.
pub proof fn law_approval_is_single_use(book: PlanBook, id: Seq<char>)
    ensures
        approve_outcome(approve_outcome(book, id).0, id).1 is Err,
{
}

/// Approving a request changes no plan but the one it names.
pub proof fn law_approval_touches_one_plan(book: PlanBook, id: Seq<char>, other: Seq<char>)
    requires
        book.approvals.contains_key(id),
        other != book.approvals[id].goal_id,
    ensures
        approve_outcome(book, id).0.plans.contains_key(other) == book.plans.contains_key(other),
        book.plans.contains_key(other) ==> approve_outcome(book, id).0.plans[other] == book.plans[other],
{
}

/// Distinct goal numbers give distinct goal identifiers, so compiling a goal never
/// replaces an earlier plan.
pub proof fn law_goal_ids_are_fresh(n: nat, m: nat)
    requires
        n != m,
    ensures
        goal_id(n) != goal_id(m),
{
    lemma_decimal_digits(n);
    lemma_decimal_digits(m);
    if goal_id(n) == goal_id(m) {
        let k = "goal-"@.len() as int;
        assert(goal_id(n).subrange(k, goal_id(n).len() as int) =~= decimal(n));
        assert(goal_id(m).subrange(k, goal_id(m).len() as int) =~= decimal(m));
    }
}

/// Memory as shipped never keeps operator data.
pub proof fn law_operator_data_is_not_kept()
    ensures
        retention_in(default_policies(), MemoryCategory::Operator) == MemoryRetention::Disabled,
{
    reveal_with_fuel(retention_in, 7);
}

/// After forgetting an identifier, no remaining record carries it.
pub proof fn law_forgotten_records_are_gone(rs: Seq<MemoryRecordView>, id: Seq<char>)
    ensures
        forall|i: int| 0 <= i < without_id(rs, id).len() ==> (#[trigger] without_id(rs, id)[i]).id != id,
    decreases rs.len(),
{
    if rs.len() > 0 {
        law_forgotten_records_are_gone(rs.drop_last(), id);
    }
}

/// Work that needs private data stays on the robot, and work only goes to the
/// cloud when the router allows it and the cost is within its limit.
pub proof fn law_compute_placement_respects_privacy(router: ComputeRouter, request: ComputeRequest)
    ensures
        request.requires_private_data ==> placement(router, request) == ComputePlacement::OnRobot,
        placement(router, request) == ComputePlacement::Cloud ==> router.cloud_allowed
            && request.estimated_cost_cents <= router.cost_limit_cents && !request.requires_private_data,
{
}

} // verus!
