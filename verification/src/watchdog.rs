//! Software watchdogs and dead-man motion expiry.
use vstd::prelude::*;

verus! {

/// What a watchdog supervises, in the order alerts are reported.
#[derive(Clone, Copy, Debug, PartialEq, Eq, Structural, PartialOrd, Ord)]
pub enum WatchdogKind {
    Command,
    AdapterHeartbeat,
    Telemetry,
    Runtime,
    Skill,
}

/// The `i`-th kind in reporting order.
pub open spec fn kind_at(i: int) -> WatchdogKind {
    if i == 0 {
        WatchdogKind::Command
    } else if i == 1 {
        WatchdogKind::AdapterHeartbeat
    } else if i == 2 {
        WatchdogKind::Telemetry
    } else if i == 3 {
        WatchdogKind::Runtime
    } else {
        WatchdogKind::Skill
    }
}

/// The position of a kind in reporting order.
pub open spec fn kind_index(k: WatchdogKind) -> int {
    match k {
        WatchdogKind::Command => 0,
        WatchdogKind::AdapterHeartbeat => 1,
        WatchdogKind::Telemetry => 2,
        WatchdogKind::Runtime => 3,
        WatchdogKind::Skill => 4,
    }
}

fn kind_at_exec(i: usize) -> (k: WatchdogKind)
    requires
        i < 5,
    ensures
        k == kind_at(i as int),
{
    if i == 0 {
        WatchdogKind::Command
    } else if i == 1 {
        WatchdogKind::AdapterHeartbeat
    } else if i == 2 {
        WatchdogKind::Telemetry
    } else if i == 3 {
        WatchdogKind::Runtime
    } else {
        WatchdogKind::Skill
    }
}

fn kind_index_exec(k: WatchdogKind) -> (i: usize)
    ensures
        i == kind_index(k),
        i < 5,
{
    match k {
        WatchdogKind::Command => 0,
        WatchdogKind::AdapterHeartbeat => 1,
        WatchdogKind::Telemetry => 2,
        WatchdogKind::Runtime => 3,
        WatchdogKind::Skill => 4,
    }
}

/// A copy of `v` with position `i` replaced by `x`.
fn updated(v: &Vec<Option<u64>>, i: usize, x: Option<u64>) -> (r: Vec<Option<u64>>)
    requires
        i < v@.len(),
    ensures
        r@ == v@.update(i as int, x),
{
    let mut r: Vec<Option<u64>> = Vec::new();
    let mut j: usize = 0;
    while j < v.len()
        invariant
            j <= v@.len(),
            i < v@.len(),
            r@ == v@.update(i as int, x).subrange(0, j as int),
        decreases v@.len() - j,
    {
        if j == i {
            r.push(x);
        } else {
            r.push(v[j]);
        }
        j = j + 1;
        proof {
            assert(r@ =~= v@.update(i as int, x).subrange(0, j as int));
        }
    }
    proof {
        assert(r@ =~= v@.update(i as int, x));
    }
    r
}

/// A watchdog whose supervised activity has been silent for longer than its limit.
#[derive(Clone, Copy, Debug, PartialEq, Eq, Structural)]
pub struct WatchdogAlert {
    pub kind: WatchdogKind,
    pub age_ms: u64,
    pub limit_ms: u64,
}

/// Watchdog limits and the last time each supervised activity was seen.
#[derive(Debug)]
pub struct WatchdogSet {
    last_seen_ms: Vec<Option<u64>>,
    limits_ms: Vec<Option<u64>>,
}

/// The plain values of a watchdog set: when each kind was last seen, and its limit.
pub struct WatchdogView {
    pub last_seen: Map<WatchdogKind, u64>,
    pub limits: Map<WatchdogKind, u64>,
}

pub open spec fn opt_map(s: Seq<Option<u64>>) -> Map<WatchdogKind, u64> {
    Map::new(|k: WatchdogKind| s[kind_index(k)] is Some, |k: WatchdogKind| s[kind_index(k)]->0)
}

impl View for WatchdogSet {
    type V = WatchdogView;

    closed spec fn view(&self) -> WatchdogView {
        WatchdogView { last_seen: opt_map(self.last_seen_ms@), limits: opt_map(self.limits_ms@) }
    }
}

/// The alert for kind `k` at time `now_ms`, if it is overdue: both a limit and a
/// last-seen time are known and the (saturating) age exceeds the limit.
pub open spec fn alert_for(v: WatchdogView, k: WatchdogKind, now_ms: u64) -> Option<WatchdogAlert> {
    if v.limits.contains_key(k) && v.last_seen.contains_key(k) {
        let age = if now_ms >= v.last_seen[k] { (now_ms - v.last_seen[k]) as u64 } else { 0u64 };
        if age > v.limits[k] {
            Some(WatchdogAlert { kind: k, age_ms: age, limit_ms: v.limits[k] })
        } else {
            None
        }
    } else {
        None
    }
}

/// The overdue alerts among the first `n` kinds, in kind order.
pub open spec fn alerts_upto(v: WatchdogView, now_ms: u64, n: int) -> Seq<WatchdogAlert>
    decreases n,
{
    if n <= 0 {
        seq![]
    } else {
        let rest = alerts_upto(v, now_ms, n - 1);
        match alert_for(v, kind_at(n - 1), now_ms) {
            Some(a) => rest.push(a),
            None => rest,
        }
    }
}

/// The standard limits in milliseconds.
pub open spec fn default_limit(k: WatchdogKind) -> u64 {
    match k {
        WatchdogKind::Command => 500,
        WatchdogKind::AdapterHeartbeat => 2_000,
        WatchdogKind::Telemetry => 5_000,
        WatchdogKind::Runtime => 2_000,
        WatchdogKind::Skill => 10_000,
    }
}

impl WatchdogSet {
    #[verifier::type_invariant]
    closed spec fn inv(&self) -> bool {
        self.last_seen_ms@.len() == 5 && self.limits_ms@.len() == 5
    }

    /// A set with no limits and nothing seen.
    pub fn new() -> (w: Self)
        ensures
            w@.last_seen == Map::<WatchdogKind, u64>::empty(),
            w@.limits == Map::<WatchdogKind, u64>::empty(),
    {
        let mut a: Vec<Option<u64>> = Vec::new();
        let mut b: Vec<Option<u64>> = Vec::new();
        let mut i: usize = 0;
        while i < 5
            invariant
                i <= 5,
                a@.len() == i,
                b@.len() == i,
                forall|j: int| 0 <= j < i ==> a@[j] is None && b@[j] is None,
            decreases 5 - i,
        {
            a.push(None);
            b.push(None);
            i = i + 1;
        }
        let w = WatchdogSet { last_seen_ms: a, limits_ms: b };
        proof {
            assert(w@.last_seen =~= Map::<WatchdogKind, u64>::empty());
            assert(w@.limits =~= Map::<WatchdogKind, u64>::empty());
        }
        w
    }

    /// The standard limits: command 500 ms, adapter heartbeat 2 s, telemetry 5 s,
    /// runtime 2 s, skill 10 s; nothing seen yet.
    pub fn with_defaults() -> (w: Self)
        ensures
            w@.last_seen == Map::<WatchdogKind, u64>::empty(),
            forall|k: WatchdogKind| #[trigger] w@.limits.contains_key(k) && w@.limits[k] == default_limit(k),
    {
        let mut w = Self::new();
        w.set_limit(WatchdogKind::Command, 500);
        w.set_limit(WatchdogKind::AdapterHeartbeat, 2_000);
        w.set_limit(WatchdogKind::Telemetry, 5_000);
        w.set_limit(WatchdogKind::Runtime, 2_000);
        w.set_limit(WatchdogKind::Skill, 10_000);
        proof {
            assert forall|k: WatchdogKind| #[trigger] w@.limits.contains_key(k) && w@.limits[k] == default_limit(k) by {
                match k {
                    WatchdogKind::Command => {},
                    WatchdogKind::AdapterHeartbeat => {},
                    WatchdogKind::Telemetry => {},
                    WatchdogKind::Runtime => {},
                    WatchdogKind::Skill => {},
                }
            }
        }
        w
    }

    /// Sets the limit for one kind.
    pub fn set_limit(&mut self, kind: WatchdogKind, limit_ms: u64)
        ensures
            final(self)@.limits == old(self)@.limits.insert(kind, limit_ms),
            final(self)@.last_seen == old(self)@.last_seen,
    {
        proof {
            use_type_invariant(&*self);
        }
        let i = kind_index_exec(kind);
        self.limits_ms = updated(&self.limits_ms, i, Some(limit_ms));
        proof {
            assert(self@.limits =~= old(self)@.limits.insert(kind, limit_ms)) by {
                assert forall|k: WatchdogKind| #![auto] kind_index(k) == kind_index(kind) ==> k == kind by {
                    match k { _ => {} }
                }
            }
            assert(self@.last_seen =~= old(self)@.last_seen);
        }
    }

    /// Records that `kind` was seen at `now_ms`.
    pub fn heartbeat(&mut self, kind: WatchdogKind, now_ms: u64)
        ensures
            final(self)@.last_seen == old(self)@.last_seen.insert(kind, now_ms),
            final(self)@.limits == old(self)@.limits,
    {
        proof {
            use_type_invariant(&*self);
        }
        let i = kind_index_exec(kind);
        self.last_seen_ms = updated(&self.last_seen_ms, i, Some(now_ms));
        proof {
            assert(self@.last_seen =~= old(self)@.last_seen.insert(kind, now_ms)) by {
                assert forall|k: WatchdogKind| #![auto] kind_index(k) == kind_index(kind) ==> k == kind by {
                    match k { _ => {} }
                }
            }
            assert(self@.limits =~= old(self)@.limits);
        }
    }

    /// The overdue watchdogs at `now_ms`, in kind order.
    pub fn check(&self, now_ms: u64) -> (alerts: Vec<WatchdogAlert>)
        ensures
            alerts@ == alerts_upto(self@, now_ms, 5),
    {
        proof {
            use_type_invariant(self);
        }
        let mut alerts: Vec<WatchdogAlert> = Vec::new();
        let mut i: usize = 0;
        while i < 5
            invariant
                i <= 5,
                self.last_seen_ms@.len() == 5,
                self.limits_ms@.len() == 5,
                alerts@ == alerts_upto(self@, now_ms, i as int),
            decreases 5 - i,
        {
            let kind = kind_at_exec(i);
            proof {
                assert(kind_index(kind) == i);
            }
            match (self.limits_ms[i], self.last_seen_ms[i]) {
                (Some(limit), Some(seen)) => {
                    let age = now_ms.saturating_sub(seen);
                    if age > limit {
                        alerts.push(WatchdogAlert { kind, age_ms: age, limit_ms: limit });
                    }
                },
                _ => {},
            }
            i = i + 1;
        }
        alerts
    }
}

impl Default for WatchdogSet {
    /// A set with no limits and nothing seen.
    fn default() -> (w: Self)
        ensures
            w@.last_seen == Map::<WatchdogKind, u64>::empty(),
            w@.limits == Map::<WatchdogKind, u64>::empty(),
    {
        Self::new()
    }
}

/// A watchdog raises an alert exactly when its activity has been silent for longer
/// than its limit: a kind that has a limit and was last seen at `seen` is reported at
/// `now` if and only if `now - seen` exceeds the limit.
pub proof fn law_alert_iff_overdue(v: WatchdogView, now_ms: u64, k: WatchdogKind)
    requires
        v.limits.contains_key(k),
        v.last_seen.contains_key(k),
    ensures
        alert_for(v, k, now_ms) is Some <==> now_ms > v.last_seen[k] && now_ms - v.last_seen[k] > v.limits[k],
{
}

} // verus!
