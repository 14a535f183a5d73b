//! Capability manifest 2.0 (per-capability provenance), task graphs with priorities
//! and resource locks, and the adapter and physics-backend boundaries.
use vstd::prelude::*;
use crate::domain::{satisfies, Capability, CapabilityManifest, Health};
use crate::text::owned;
use crate::textmap::{TextMap, TextSet};

verus! {

/// How Nexus is deployed relative to an existing robot stack.
#[derive(Clone, Copy, Debug, PartialEq, Eq, Structural)]
pub enum DeploymentMode {
    Native,
    Adapter,
    Compatibility,
}

/// The origin of a capability claim.
#[derive(Clone, Copy, Debug, PartialEq, Eq, Structural)]
pub enum CapabilitySourceType {
    Static,
    Discovered,
    Overridden,
    Derived,
}

#[derive(Clone, Debug, PartialEq, Eq)]
pub struct CapabilityProvenance {
    pub source_type: CapabilitySourceType,
    pub provider: String,
    pub observed_at_ms: Option<u128>,
}

#[derive(Clone, Debug, PartialEq, Eq)]
pub struct CapabilityRecord {
    pub capability: Capability,
    pub enabled: bool,
    pub provenance: CapabilityProvenance,
}

/// NCM 2.0: the v1 manifest plus attributable capability records keyed by path.
#[derive(Clone, Debug)]
pub struct CapabilityManifestV2 {
    pub base: CapabilityManifest,
    pub records: TextMap<CapabilityRecord>,
    pub capability_hash: Option<String>,
}

/// Whether a manifest supports `path`: an enabled record for exactly that path, or
/// support by the v1 manifest (with case folding and aliases).
pub open spec fn supports_v2(m: CapabilityManifestV2, path: Seq<char>) -> bool {
    (m.records.lookup(path) matches Some(r) && r.enabled) || satisfies(m.base.capabilities.as_set(), path)
}

/// A record made from a static capability of `provider`.
pub open spec fn static_record(r: CapabilityRecord, path: Seq<char>, provider: Seq<char>) -> bool {
    &&& r.capability.0@ == path
    &&& r.enabled
    &&& r.provenance.source_type == CapabilitySourceType::Static
    &&& r.provenance.provider@ == provider
    &&& r.provenance.observed_at_ms is None
}

impl CapabilityManifestV2 {
    pub fn supports(&self, path: &str) -> (b: bool)
        ensures
            b == supports_v2(*self, path@),
    {
        let enabled = match self.records.get(path) {
            Some(record) => record.enabled,
            None => false,
        };
        enabled || self.base.supports(path)
    }

    /// Wraps a v1 manifest: one enabled, statically provided record per capability.
    pub fn from_static(base: CapabilityManifest, provider: &str) -> (m: Self)
        ensures
            m.base == base,
            m.capability_hash is None,
            forall|k: Seq<char>| #[trigger] m.records.lookup(k) is Some <==> base.capabilities.as_set().contains(k),
            forall|k: Seq<char>| #[trigger] m.records.lookup(k) matches Some(r) ==> static_record(r, k, provider@),
    {
        let mut records: TextMap<CapabilityRecord> = TextMap::new();
        let n = base.capabilities.len();
        let mut i: usize = 0;
        while i < n
            invariant
                n == base.capabilities.paths().len(),
                i <= n,
                forall|k: Seq<char>| #[trigger] records.lookup(k) is Some <==> exists|j: int|
                    0 <= j < i && base.capabilities.paths()[j] == k,
                forall|k: Seq<char>| #[trigger] records.lookup(k) matches Some(r) ==> static_record(r, k, provider@),
            decreases n - i,
        {
            let cap = base.capabilities.get(i);
            let key = cap.0.clone();
            let record = CapabilityRecord {
                capability: Capability(cap.0.clone()),
                enabled: true,
                provenance: CapabilityProvenance {
                    source_type: CapabilitySourceType::Static,
                    provider: owned(provider),
                    observed_at_ms: None,
                },
            };
            records.insert(key, record);
            proof {
                assert forall|k: Seq<char>| #[trigger] records.lookup(k) is Some <==> exists|j: int|
                    0 <= j < i + 1 && base.capabilities.paths()[j] == k by {
                    if k == base.capabilities.paths()[i as int] {
                        assert(base.capabilities.paths()[i as int] == k);
                    }
                }
            }
            i = i + 1;
        }
        proof {
            assert forall|k: Seq<char>| #[trigger] records.lookup(k) is Some <==> base.capabilities.as_set().contains(k) by {
                if base.capabilities.as_set().contains(k) {
                    let j = base.capabilities.paths().index_of(k);
                    assert(base.capabilities.paths()[j] == k);
                }
            }
        }
        CapabilityManifestV2 { base, records, capability_hash: None }
    }

    /// Marks every record as discovered by its provider, keeping everything else.
    pub fn mark_discovered(&mut self)
        ensures
            final(self).base == old(self).base,
            final(self).capability_hash == old(self).capability_hash,
            forall|k: Seq<char>| #[trigger] final(self).records.lookup(k) is Some <==> old(self).records.lookup(k) is Some,
            forall|k: Seq<char>| #[trigger] final(self).records.lookup(k) matches Some(r) ==> ({
                let o = old(self).records.lookup(k)->0;
                &&& r.capability.0@ == o.capability.0@
                &&& r.enabled == o.enabled
                &&& r.provenance.source_type == CapabilitySourceType::Discovered
                &&& r.provenance.provider@ == o.provenance.provider@
                &&& r.provenance.observed_at_ms == o.provenance.observed_at_ms
            }),
    {
        let n = self.records.len();
        let ghost start = self.records;
        let mut i: usize = 0;
        while i < n
            invariant
                n == self.records.keys().len(),
                self.records.keys() == start.keys(),
                self.base == old(self).base,
                self.capability_hash == old(self).capability_hash,
                start == old(self).records,
                i <= n,
                forall|k: Seq<char>| #[trigger] self.records.lookup(k) is Some <==> start.lookup(k) is Some,
                forall|k: Seq<char>| #[trigger] self.records.lookup(k) matches Some(r) ==> ({
                    let o = start.lookup(k)->0;
                    &&& r.capability.0@ == o.capability.0@
                    &&& r.enabled == o.enabled
                    &&& r.provenance.provider@ == o.provenance.provider@
                    &&& r.provenance.observed_at_ms == o.provenance.observed_at_ms
                    &&& (r.provenance.source_type == CapabilitySourceType::Discovered
                        || r.provenance.source_type == o.provenance.source_type)
                }),
                forall|j: int| 0 <= j < i ==> (#[trigger] self.records.lookup(start.keys()[j]))->0.provenance.source_type
                    == CapabilitySourceType::Discovered,
            decreases n - i,
        {
            let (_, r) = self.records.entry_at(i);
            let updated = CapabilityRecord {
                capability: Capability(r.capability.0.clone()),
                enabled: r.enabled,
                provenance: CapabilityProvenance {
                    source_type: CapabilitySourceType::Discovered,
                    provider: r.provenance.provider.clone(),
                    observed_at_ms: r.provenance.observed_at_ms,
                },
            };
            self.records.set_value(i, updated);
            i = i + 1;
        }
        proof {
            assert forall|k: Seq<char>| #[trigger] self.records.lookup(k) is Some implies
                (self.records.lookup(k)->0).provenance.source_type == CapabilitySourceType::Discovered by {
                let j = start.keys().index_of(k);
                assert(start.keys()[j] == k);
            }
        }
    }
}

#[derive(Clone, Copy, Debug, PartialEq, Eq, Structural)]
pub enum TaskPriority {
    Background,
    Normal,
    High,
    Safety,
}

#[derive(Clone, Debug, PartialEq, Eq)]
pub enum TaskNodeV2 {
    Action(String),
    Parallel(Vec<String>),
    Wait { reason: String, timeout_ms: u64 },
    HumanGate(String),
    Recovery { retries: u8, compensation: Option<String> },
}

#[derive(Clone, Debug)]
pub struct TaskGraphV2 {
    pub id: String,
    pub priority: TaskPriority,
    pub nodes: Vec<TaskNodeV2>,
    pub resource_locks: TextSet,
}

#[derive(Clone, Debug, PartialEq, Eq)]
pub enum AdapterError {
    Unavailable(String),
    AuthenticationFailed,
    InvalidManifest(String),
    OperationDenied(String),
}

/// A low-level adapter boundary; callers use capability contracts, not vendor internals.
pub trait RobotAdapter {
    fn name(&self) -> &str;

    fn mode(&self) -> DeploymentMode;

    fn connect(&mut self) -> Result<(), AdapterError>;

    fn disconnect(&mut self) -> Result<(), AdapterError>;

    fn discover(&mut self) -> Result<CapabilityManifestV2, AdapterError>;

    fn health(&self) -> Health;

    fn telemetry(&self) -> Result<TextMap<String>, AdapterError>;

    fn stop(&mut self) -> Result<(), AdapterError>;
}

/// A swappable physics backend.
pub trait PhysicsBackend {
    fn name(&self) -> &str;

    fn reset(&mut self) -> Result<(), String>;

    fn step(&mut self, milliseconds: u64) -> Result<(), String>;
}

} // verus!
