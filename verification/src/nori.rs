//! Community compatibility contracts for publicly described Nori-style software
//! flows: a training-environment boundary and a simulated robot profile. Not
//! affiliated with or endorsed by Nori Robotics.
use vstd::prelude::*;
use crate::domain::{Capability, CapabilityManifest, CapabilitySet, Health};
use crate::ncm::{
    AdapterError, CapabilityManifestV2, CapabilityProvenance, CapabilityRecord, CapabilitySourceType, DeploymentMode,
    RobotAdapter,
};
use crate::text::{ascii_lower, ascii_lower_all, lemma_lower_fixed, decimal, owned, push_decimal, push_str};
use crate::textmap::{strictly_sorted, TextMap};

verus! {

#[derive(Debug, PartialEq, Eq)]
pub struct Session {
    pub id: String,
    pub status: String,
}

impl View for Session {
    type V = (Seq<char>, Seq<char>);

    open spec fn view(&self) -> (Seq<char>, Seq<char>) {
        (self.id@, self.status@)
    }
}

impl Clone for Session {
    fn clone(&self) -> (r: Self)
        ensures
            r@ == self@,
    {
        Session { id: self.id.clone(), status: self.status.clone() }
    }
}

#[derive(Clone, Debug, PartialEq, Eq)]
pub struct SessionConfig {
    pub name: String,
    pub dataset: Option<String>,
}

/// A training-environment boundary. Network clients implement it without leaking
/// vendor APIs into Nexus.
pub trait TrainingEnvironment {
    fn sessions(&self) -> Result<Vec<Session>, AdapterError>;

    fn start_session(&mut self, config: SessionConfig) -> Result<String, AdapterError>;

    fn stop_session(&mut self, id: &str) -> Result<(), AdapterError>;
}

/// The observable state of the Nori-Lab adapter: the connection, the sessions by
/// identifier (identifier and status) in identifier order, and the number of
/// sessions started so far.
pub ghost struct NoriView {
    pub connected: bool,
    pub order: Seq<Seq<char>>,
    pub sessions: Map<Seq<char>, (Seq<char>, Seq<char>)>,
    pub counter: u64,
}

/// A simulated Nori-Lab training environment and compatibility adapter.
#[derive(Debug)]
pub struct NoriLabAdapter {
    connected: bool,
    sessions: TextMap<Session>,
    counter: u64,
}

impl View for NoriLabAdapter {
    type V = NoriView;

    closed spec fn view(&self) -> NoriView {
        NoriView {
            connected: self.connected,
            order: self.sessions.keys(),
            sessions: Map::new(|k: Seq<char>| self.sessions.lookup(k) is Some, |k: Seq<char>| (self.sessions.lookup(k)->0)@),
            counter: self.counter,
        }
    }
}

impl Default for NoriLabAdapter {
    /// A disconnected adapter without sessions.
    fn default() -> (a: Self)
        ensures
            !a@.connected,
            a@.order.len() == 0,
            a@.sessions == Map::<Seq<char>, (Seq<char>, Seq<char>)>::empty(),
            a@.counter == 0,
    {
        let a = NoriLabAdapter { connected: false, sessions: TextMap::new(), counter: 0 };
        proof {
            assert(a@.sessions =~= Map::<Seq<char>, (Seq<char>, Seq<char>)>::empty());
        }
        a
    }
}

/// The identifier of the `n`-th session.
pub open spec fn session_id(n: nat) -> Seq<char> {
    "nori-session-"@ + decimal(n)
}

impl TrainingEnvironment for NoriLabAdapter {
    /// The sessions, in identifier order.
    fn sessions(&self) -> (r: Result<Vec<Session>, AdapterError>)
        ensures
            strictly_sorted(self@.order),
            r matches Ok(v) && v@.len() == self@.order.len() && forall|i: int| 0 <= i < v@.len()
                ==> self@.sessions.contains_key(self@.order[i]) && #[trigger] v@[i]@ == self@.sessions[self@.order[i]],
    {
        let mut v: Vec<Session> = Vec::new();
        let mut i: usize = 0;
        while i < self.sessions.len()
            invariant
                i <= self.sessions.keys().len(),
                v@.len() == i,
                forall|j: int| 0 <= j < i ==> #[trigger] self.sessions.lookup(self.sessions.keys()[j]) is Some
                    && v@[j]@ == (self.sessions.lookup(self.sessions.keys()[j])->0)@,
            decreases self.sessions.keys().len() - i,
        {
            let (_, s) = self.sessions.entry_at(i);
            v.push(s.clone());
            i = i + 1;
        }
        Ok(v)
    }

    /// Starts a session named after the configuration, numbered after the sessions
    /// started so far; needs a connection. Once every session number is used up,
    /// no further session is started.
    fn start_session(&mut self, config: SessionConfig) -> (r: Result<String, AdapterError>)
        ensures
            !old(self)@.connected ==> (r matches Err(AdapterError::Unavailable(m)) && m@ == "Nori-Lab adapter is disconnected"@
                && final(self)@ == old(self)@),
            old(self)@.connected && old(self)@.counter == u64::MAX ==> (r matches Err(AdapterError::Unavailable(m))
                && m@ == "session numbers exhausted"@ && final(self)@ == old(self)@),
            old(self)@.connected && old(self)@.counter < u64::MAX ==> (r matches Ok(id) && {
                let n = (old(self)@.counter + 1) as u64;
                &&& id@ == session_id(n as nat)
                &&& final(self)@.counter == n
                &&& final(self)@.connected
                &&& final(self)@.sessions == old(self)@.sessions.insert(id@, (id@, "running: "@ + config.name@))
            }),
    {
        if !self.connected {
            return Err(AdapterError::Unavailable(owned("Nori-Lab adapter is disconnected")));
        }
        if self.counter == u64::MAX {
            return Err(AdapterError::Unavailable(owned("session numbers exhausted")));
        }
        self.counter = self.counter + 1;
        let mut id = String::new();
        push_str(&mut id, "nori-session-");
        push_decimal(&mut id, self.counter as u128);
        let mut status = String::new();
        push_str(&mut status, "running: ");
        push_str(&mut status, config.name.as_str());
        proof {
            assert(id@ =~= session_id(self.counter as nat));
        }
        self.sessions.insert(id.clone(), Session { id: id.clone(), status });
        proof {
            assert(self@.sessions =~= old(self)@.sessions.insert(id@, (id@, "running: "@ + config.name@)));
        }
        Ok(id)
    }

    /// Marks session `id` as stopped; an unknown session is refused.
    fn stop_session(&mut self, id: &str) -> (r: Result<(), AdapterError>)
        ensures
            !old(self)@.sessions.contains_key(id@) ==> (r matches Err(AdapterError::OperationDenied(m))
                && m@ == "unknown session"@ && final(self)@ == old(self)@),
            old(self)@.sessions.contains_key(id@) ==> (r is Ok && final(self)@ == (NoriView {
                sessions: old(self)@.sessions.insert(id@, (old(self)@.sessions[id@].0, "stopped"@)),
                ..old(self)@
            })),
    {
        match self.sessions.position(id) {
            None => Err(AdapterError::OperationDenied(owned("unknown session"))),
            Some(i) => {
                let sid = self.sessions.value_at(i).id.clone();
                self.sessions.set_value(i, Session { id: sid, status: owned("stopped") });
                proof {
                    assert(self@.sessions =~= old(self)@.sessions.insert(id@, (old(self)@.sessions[id@].0, "stopped"@)));
                }
                Ok(())
            },
        }
    }
}

/// The capability paths of the simulated Nori A3 profile, as published.
pub open spec fn nori_a3_paths() -> Seq<Seq<char>> {
    seq![
        "manipulators.left.gripper"@,
        "manipulators.right.gripper"@,
        "vision.rgb"@,
        "sensing.lidar"@,
        "audio.microphones"@,
        "audio.speakers"@,
        "power.battery"@,
    ]
}

/// The record the simulated Nori A3 profile keeps for `k`.
pub open spec fn nori_a3_record(r: CapabilityRecord, k: Seq<char>) -> bool {
    if k == "vision.depth"@ {
        &&& r.capability.0@ == ascii_lower("vision.depth"@)
        &&& !r.enabled
        &&& r.provenance.source_type == CapabilitySourceType::Derived
        &&& r.provenance.provider@ == "not inferred from RGB-only public profile"@
        &&& r.provenance.observed_at_ms is None
    } else if k == "manipulators.left.dof"@ {
        &&& r.capability.0@ == ascii_lower("manipulators.left.dof"@)
        &&& r.enabled
        &&& r.provenance.source_type == CapabilitySourceType::Static
        &&& r.provenance.provider@ == "public nori-a3 example profile"@
        &&& r.provenance.observed_at_ms is None
    } else {
        &&& r.capability.0@ == k
        &&& r.enabled
        &&& r.provenance.source_type == CapabilitySourceType::Static
        &&& r.provenance.provider@ == "nori-community-profile"@
        &&& r.provenance.observed_at_ms is None
    }
}

/// The simulated Nori A3 compatibility profile: its published capabilities as
/// static records, a statically declared left-arm degree-of-freedom record, and a
/// disabled depth record, since depth is not inferred from an RGB-only profile.
pub fn nori_a3_manifest() -> (m: CapabilityManifestV2)
    ensures
        m.base.robot_id@ == "nori-a3-sim"@,
        m.base.name@ == "SIMULATED Nori-compatible profile"@,
        m.base.architecture@ == "simulated"@,
        m.base.capabilities.as_set() == ascii_lower_all(nori_a3_paths()).to_set(),
        m.base.capabilities.as_set() == nori_a3_paths().to_set(),
        m.base.capabilities.paths().len() == 7,
        m.capability_hash is None,
        forall|k: Seq<char>| #[trigger] m.records.lookup(k) is Some <==> (m.base.capabilities.as_set().contains(k)
            || k == "vision.depth"@ || k == "manipulators.left.dof"@),
        forall|k: Seq<char>| #[trigger] m.records.lookup(k) matches Some(r) ==> nori_a3_record(r, k),
{
    let mut caps = CapabilitySet::new();
    caps.insert(Capability::new("manipulators.left.gripper"));
    caps.insert(Capability::new("manipulators.right.gripper"));
    caps.insert(Capability::new("vision.rgb"));
    caps.insert(Capability::new("sensing.lidar"));
    caps.insert(Capability::new("audio.microphones"));
    caps.insert(Capability::new("audio.speakers"));
    caps.insert(Capability::new("power.battery"));
    proof {
        assert(caps.as_set() =~= ascii_lower_all(nori_a3_paths()).to_set()) by {
            let l = ascii_lower_all(nori_a3_paths());
            assert(l.len() == 7);
            assert forall|p: Seq<char>| caps.as_set().contains(p) <==> l.contains(p) by {
                if caps.as_set().contains(p) {
                    assert(l[0] == ascii_lower("manipulators.left.gripper"@));
                    assert(l[1] == ascii_lower("manipulators.right.gripper"@));
                    assert(l[2] == ascii_lower("vision.rgb"@));
                    assert(l[3] == ascii_lower("sensing.lidar"@));
                    assert(l[4] == ascii_lower("audio.microphones"@));
                    assert(l[5] == ascii_lower("audio.speakers"@));
                    assert(l[6] == ascii_lower("power.battery"@));
                }
            }
        }
    }
    let count = caps.len();
    proof {
        let l = ascii_lower_all(nori_a3_paths());
        let p = nori_a3_paths();
        reveal_strlit("manipulators.left.gripper");
        reveal_strlit("manipulators.right.gripper");
        reveal_strlit("vision.rgb");
        reveal_strlit("sensing.lidar");
        reveal_strlit("audio.microphones");
        reveal_strlit("audio.speakers");
        reveal_strlit("power.battery");
        lemma_lower_fixed("manipulators.left.gripper"@);
        lemma_lower_fixed("manipulators.right.gripper"@);
        lemma_lower_fixed("vision.rgb"@);
        lemma_lower_fixed("sensing.lidar"@);
        lemma_lower_fixed("audio.microphones"@);
        lemma_lower_fixed("audio.speakers"@);
        lemma_lower_fixed("power.battery"@);
        assert(l =~= p);
        assert("sensing.lidar"@[0] != "power.battery"@[0]);
        assert(p.no_duplicates());
        p.unique_seq_to_set();
        caps.paths().unique_seq_to_set();
        assert(count == 7);
    }
    let base = CapabilityManifest {
        robot_id: owned("nori-a3-sim"),
        name: owned("SIMULATED Nori-compatible profile"),
        architecture: owned("simulated"),
        capabilities: caps,
    };
    let mut manifest = CapabilityManifestV2::from_static(base, "nori-community-profile");
    let dof = CapabilityRecord {
        capability: Capability::new("manipulators.left.dof"),
        enabled: true,
        provenance: CapabilityProvenance {
            source_type: CapabilitySourceType::Static,
            provider: owned("public nori-a3 example profile"),
            observed_at_ms: None,
        },
    };
    manifest.records.insert(owned("manipulators.left.dof"), dof);
    let depth = CapabilityRecord {
        capability: Capability::new("vision.depth"),
        enabled: false,
        provenance: CapabilityProvenance {
            source_type: CapabilitySourceType::Derived,
            provider: owned("not inferred from RGB-only public profile"),
            observed_at_ms: None,
        },
    };
    manifest.records.insert(owned("vision.depth"), depth);
    manifest
}

impl RobotAdapter for NoriLabAdapter {
    fn name(&self) -> (n: &str)
        ensures
            n@ == "nori-community"@,
    {
        "nori-community"
    }

    fn mode(&self) -> (m: DeploymentMode)
        ensures
            m == DeploymentMode::Compatibility,
    {
        DeploymentMode::Compatibility
    }

    fn connect(&mut self) -> (r: Result<(), AdapterError>)
        ensures
            r is Ok,
            final(self)@ == (NoriView { connected: true, ..old(self)@ }),
    {
        self.connected = true;
        Ok(())
    }

    fn disconnect(&mut self) -> (r: Result<(), AdapterError>)
        ensures
            r is Ok,
            final(self)@ == (NoriView { connected: false, ..old(self)@ }),
    {
        self.connected = false;
        Ok(())
    }

    /// The simulated Nori A3 profile, once connected.
    fn discover(&mut self) -> (r: Result<CapabilityManifestV2, AdapterError>)
        ensures
            final(self)@ == old(self)@,
            !old(self)@.connected ==> (r matches Err(AdapterError::Unavailable(m)) && m@ == "connect before discovery"@),
            old(self)@.connected ==> (r matches Ok(m) && m.base.robot_id@ == "nori-a3-sim"@
                && m.base.capabilities.as_set() == ascii_lower_all(nori_a3_paths()).to_set()
                && forall|k: Seq<char>| #[trigger] m.records.lookup(k) matches Some(rec) ==> nori_a3_record(rec, k)),
    {
        if !self.connected {
            return Err(AdapterError::Unavailable(owned("connect before discovery")));
        }
        Ok(nori_a3_manifest())
    }

    fn health(&self) -> (h: Health)
        ensures
            h == (if self@.connected { Health::Healthy } else { Health::Offline }),
    {
        if self.connected {
            Health::Healthy
        } else {
            Health::Offline
        }
    }

    /// The integration label and the number of training sessions, as text.
    fn telemetry(&self) -> (r: Result<TextMap<String>, AdapterError>)
        ensures
            r matches Ok(t) && {
                &&& t.lookup("integration.label"@) matches Some(v) && v@ == "Community Integration — simulated compatibility only"@
                &&& t.lookup("training.sessions"@) matches Some(v) && v@ == decimal(self@.order.len())
                &&& forall|k: Seq<char>| #[trigger] t.lookup(k) is Some ==> k == "integration.label"@ || k == "training.sessions"@
            },
    {
        let mut t: TextMap<String> = TextMap::new();
        let mut count = String::new();
        push_decimal(&mut count, self.sessions.len() as u128);
        proof {
            assert(count@ =~= decimal(self@.order.len()));
            reveal_strlit("integration.label");
            reveal_strlit("training.sessions");
            assert("integration.label"@[0] != "training.sessions"@[0]);
        }
        t.insert(owned("integration.label"), owned("Community Integration — simulated compatibility only"));
        t.insert(owned("training.sessions"), count);
        Ok(t)
    }

    /// Stops every training session.
    fn stop(&mut self) -> (r: Result<(), AdapterError>)
        ensures
            r is Ok,
            final(self)@.connected == old(self)@.connected,
            final(self)@.counter == old(self)@.counter,
            final(self)@.order == old(self)@.order,
            final(self)@.sessions.dom() == old(self)@.sessions.dom(),
            forall|k: Seq<char>| #[trigger] final(self)@.sessions.contains_key(k)
                ==> final(self)@.sessions[k] == (old(self)@.sessions[k].0, "stopped"@),
    {
        let n = self.sessions.len();
        let mut i: usize = 0;
        while i < n
            invariant
                n == self.sessions.keys().len(),
                i <= n,
                self.connected == old(self).connected,
                self.counter == old(self).counter,
                self.sessions.keys() == old(self).sessions.keys(),
                forall|k: Seq<char>| #[trigger] self.sessions.lookup(k) is Some <==> old(self).sessions.lookup(k) is Some,
                forall|k: Seq<char>| #[trigger] self.sessions.lookup(k) is Some ==> (self.sessions.lookup(k)->0)@.0
                    == (old(self).sessions.lookup(k)->0)@.0,
                forall|j: int| 0 <= j < i ==> (#[trigger] self.sessions.lookup(old(self).sessions.keys()[j])->0)@.1 == "stopped"@,
            decreases n - i,
        {
            let (_, s) = self.sessions.entry_at(i);
            let sid = s.id.clone();
            self.sessions.set_value(i, Session { id: sid, status: owned("stopped") });
            i = i + 1;
        }
        proof {
            assert(self@.sessions.dom() =~= old(self)@.sessions.dom());
            assert forall|k: Seq<char>| #[trigger] self@.sessions.contains_key(k) implies self@.sessions[k]
                == (old(self)@.sessions[k].0, "stopped"@) by {
                let j = old(self).sessions.keys().index_of(k);
                assert(old(self).sessions.keys()[j] == k);
            }
        }
        Ok(())
    }
}

} // verus!
