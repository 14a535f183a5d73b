//! ROS 2 capability discovery: message types map onto NCM capability paths; the
//! transport binding lives outside the library.
use vstd::prelude::*;
use crate::domain::{Capability, CapabilityManifest, CapabilitySet, Health};
use crate::ncm::{AdapterError, CapabilityManifestV2, CapabilitySourceType, DeploymentMode, RobotAdapter};
use crate::text::{ascii_lower, bool_text, decimal, owned, push_bool, push_decimal, text_eq};
use crate::textmap::TextMap;

verus! {

#[derive(Clone, Debug, PartialEq, Eq)]
pub struct RosEndpoint {
    pub name: String,
    pub message_type: String,
    pub kind: RosEndpointKind,
}

#[derive(Clone, Copy, Debug, PartialEq, Eq, Structural)]
pub enum RosEndpointKind {
    Topic,
    Service,
    Action,
}

/// The NCM capability that a ROS 2 message type provides, if Nexus knows it.
pub open spec fn ros_capability(message_type: Seq<char>) -> Option<Seq<char>> {
    if message_type == "sensor_msgs/msg/Image"@ {
        Some("vision.rgb"@)
    } else if message_type == "sensor_msgs/msg/CameraInfo"@ {
        Some("vision.camera_calibration"@)
    } else if message_type == "sensor_msgs/msg/Imu"@ {
        Some("sensing.imu"@)
    } else if message_type == "sensor_msgs/msg/BatteryState"@ {
        Some("power.battery"@)
    } else if message_type == "sensor_msgs/msg/PointCloud2"@ || message_type == "sensor_msgs/msg/LaserScan"@ {
        Some("sensing.lidar"@)
    } else if message_type == "control_msgs/action/FollowJointTrajectory"@ {
        Some("manipulators.joint_trajectory"@)
    } else if message_type == "geometry_msgs/msg/Twist"@ {
        Some("locomotion.control"@)
    } else {
        None
    }
}

/// Maps an endpoint's message type to a capability path; unknown types map to nothing.
pub fn map_endpoint(endpoint: &RosEndpoint) -> (r: Option<&'static str>)
    ensures
        r matches Some(s) ==> ros_capability(endpoint.message_type@) == Some(s@),
        r is None ==> ros_capability(endpoint.message_type@) is None,
{
    let t = endpoint.message_type.as_str();
    if text_eq(t, "sensor_msgs/msg/Image") {
        Some("vision.rgb")
    } else if text_eq(t, "sensor_msgs/msg/CameraInfo") {
        Some("vision.camera_calibration")
    } else if text_eq(t, "sensor_msgs/msg/Imu") {
        Some("sensing.imu")
    } else if text_eq(t, "sensor_msgs/msg/BatteryState") {
        Some("power.battery")
    } else if text_eq(t, "sensor_msgs/msg/PointCloud2") || text_eq(t, "sensor_msgs/msg/LaserScan") {
        Some("sensing.lidar")
    } else if text_eq(t, "control_msgs/action/FollowJointTrajectory") {
        Some("manipulators.joint_trajectory")
    } else if text_eq(t, "geometry_msgs/msg/Twist") {
        Some("locomotion.control")
    } else {
        None
    }
}

/// The normalized capability path an endpoint contributes, if any.
pub open spec fn endpoint_path(e: RosEndpoint) -> Option<Seq<char>> {
    match ros_capability(e.message_type@) {
        Some(s) => Some(ascii_lower(s)),
        None => None,
    }
}

/// The capability paths contributed by the first `n` endpoints.
pub open spec fn discovered_upto(eps: Seq<RosEndpoint>, n: int) -> Set<Seq<char>> {
    Set::new(|p: Seq<char>| exists|i: int| 0 <= i < n && #[trigger] endpoint_path(eps[i]) == Some(p))
}

/// The capability paths contributed by all endpoints.
pub open spec fn discovered_paths(eps: Seq<RosEndpoint>) -> Set<Seq<char>> {
    discovered_upto(eps, eps.len() as int)
}

/// The observable state of a ROS 2 adapter.
pub ghost struct Ros2View {
    pub endpoints: Seq<RosEndpoint>,
    pub connected: bool,
    pub stop_requested: bool,
}

/// A call on a ROS 2 adapter that can change or read its state.
pub enum RosCall {
    Connect,
    Disconnect,
    Discover,
    Telemetry,
    Stop,
}

/// The adapter state after one call, as the methods' contracts state it.
pub open spec fn ros_step(v: Ros2View, call: RosCall) -> Ros2View {
    match call {
        RosCall::Connect => Ros2View { connected: true, stop_requested: false, ..v },
        RosCall::Disconnect => Ros2View { connected: false, ..v },
        RosCall::Discover => v,
        RosCall::Telemetry => v,
        RosCall::Stop => Ros2View { stop_requested: true, ..v },
    }
}

/// The adapter state after a sequence of calls.
pub open spec fn ros_run(v: Ros2View, calls: Seq<RosCall>) -> Ros2View
    decreases calls.len(),
{
    if calls.len() == 0 {
        v
    } else {
        ros_step(ros_run(v, calls.drop_last()), calls.last())
    }
}

/// No call after position `i` is a connect.
pub open spec fn no_connect_after(calls: Seq<RosCall>, i: int) -> bool {
    forall|j: int| i < j < calls.len() ==> #[trigger] calls[j] != RosCall::Connect
}

/// A stop was called after the last connect, or, with no connect at all, a stop
/// was called or had already been requested.
pub open spec fn stop_after_last_connect(calls: Seq<RosCall>, initially: bool) -> bool {
    ||| exists|i: int| 0 <= i < calls.len() && #[trigger] calls[i] == RosCall::Stop && no_connect_after(calls, i)
    ||| initially && !calls.contains(RosCall::Connect)
}

/// Over any sequence of connect, disconnect, discover, telemetry and stop calls,
/// the stop flag is set exactly when a stop was called after the last connect
/// (after construction, where connect was never called); telemetry reports that
/// flag under `ros2.stop_requested`.
pub proof fn law_stop_flag_follows_last_connect(initial: Ros2View, calls: Seq<RosCall>)
    ensures
        ros_run(initial, calls).stop_requested == stop_after_last_connect(calls, initial.stop_requested),
    decreases calls.len(),
{
    if calls.len() > 0 {
        let pre = calls.drop_last();
        let n = calls.len() - 1;
        law_stop_flag_follows_last_connect(initial, pre);
        assert forall|j: int| 0 <= j < n implies #[trigger] calls[j] == pre[j] by {}
        match calls[n] {
            RosCall::Stop => {
                assert(calls[n] == RosCall::Stop && no_connect_after(calls, n));
            },
            RosCall::Connect => {
                assert(calls.contains(RosCall::Connect)) by {
                    assert(calls[n] == RosCall::Connect);
                }
                if exists|i: int| 0 <= i < calls.len() && #[trigger] calls[i] == RosCall::Stop && no_connect_after(calls, i) {
                    let i = choose|i: int| 0 <= i < calls.len() && #[trigger] calls[i] == RosCall::Stop && no_connect_after(calls, i);
                    assert(calls[n] == RosCall::Connect);
                }
            },
            _ => {
                assert(calls.contains(RosCall::Connect) == pre.contains(RosCall::Connect)) by {
                    if calls.contains(RosCall::Connect) {
                        let j = choose|j: int| 0 <= j < calls.len() && calls[j] == RosCall::Connect;
                        assert(pre[j] == RosCall::Connect);
                    }
                    if pre.contains(RosCall::Connect) {
                        let j = choose|j: int| 0 <= j < pre.len() && pre[j] == RosCall::Connect;
                        assert(calls[j] == RosCall::Connect);
                    }
                }
                if exists|i: int| 0 <= i < calls.len() && #[trigger] calls[i] == RosCall::Stop && no_connect_after(calls, i) {
                    let i = choose|i: int| 0 <= i < calls.len() && #[trigger] calls[i] == RosCall::Stop && no_connect_after(calls, i);
                    assert(i < n);
                    assert(pre[i] == RosCall::Stop);
                    assert forall|j: int| i < j < pre.len() implies #[trigger] pre[j] != RosCall::Connect by {
                        assert(calls[j] == pre[j]);
                    }
                    assert(no_connect_after(pre, i));
                }
                if exists|i: int| 0 <= i < pre.len() && #[trigger] pre[i] == RosCall::Stop && no_connect_after(pre, i) {
                    let i = choose|i: int| 0 <= i < pre.len() && #[trigger] pre[i] == RosCall::Stop && no_connect_after(pre, i);
                    assert(calls[i] == RosCall::Stop);
                    assert forall|j: int| i < j < calls.len() implies #[trigger] calls[j] != RosCall::Connect by {
                        if j < n {
                            assert(pre[j] == calls[j]);
                        }
                    }
                    assert(no_connect_after(calls, i));
                }
            },
        }
    }
}

/// A ROS 2 graph seen through the adapter boundary.
pub struct Ros2Adapter {
    endpoints: Vec<RosEndpoint>,
    connected: bool,
    stop_requested: bool,
}

impl View for Ros2Adapter {
    type V = Ros2View;

    closed spec fn view(&self) -> Ros2View {
        Ros2View {
            endpoints: self.endpoints@,
            connected: self.connected,
            stop_requested: self.stop_requested,
        }
    }
}

impl Ros2Adapter {
    /// A disconnected adapter over the given endpoints, with no stop requested.
    pub fn new(endpoints: Vec<RosEndpoint>) -> (a: Self)
        ensures
            a@ == (Ros2View { endpoints: endpoints@, connected: false, stop_requested: false }),
    {
        Ros2Adapter { endpoints, connected: false, stop_requested: false }
    }

    /// Whether the adapter has received the deterministic stop request.
    pub fn stop_requested(&self) -> (b: bool)
        ensures
            b == self@.stop_requested,
    {
        self.stop_requested
    }

    /// The normalized capabilities of the known endpoints.
    fn discovered_capabilities(&self) -> (s: CapabilitySet)
        ensures
            s.as_set() == discovered_paths(self@.endpoints),
    {
        let mut s = CapabilitySet::new();
        let mut i: usize = 0;
        proof {
            assert(s.as_set() =~= discovered_upto(self.endpoints@, 0));
        }
        while i < self.endpoints.len()
            invariant
                i <= self.endpoints@.len(),
                s.as_set() == discovered_upto(self.endpoints@, i as int),
            decreases self.endpoints@.len() - i,
        {
            let ghost before = s.as_set();
            match map_endpoint(&self.endpoints[i]) {
                Some(path) => {
                    let c = Capability::new(path);
                    s.insert(c);
                    proof {
                        assert(endpoint_path(self.endpoints@[i as int]) == Some(c.0@));
                        assert(s.as_set() =~= discovered_upto(self.endpoints@, i + 1));
                    }
                },
                None => {
                    proof {
                        assert(endpoint_path(self.endpoints@[i as int]) is None);
                        assert(s.as_set() =~= discovered_upto(self.endpoints@, i + 1));
                    }
                },
            }
            i = i + 1;
        }
        s
    }
}

impl RobotAdapter for Ros2Adapter {
    fn name(&self) -> (n: &str)
        ensures
            n@ == "ros2"@,
    {
        "ros2"
    }

    fn mode(&self) -> (m: DeploymentMode)
        ensures
            m == DeploymentMode::Adapter,
    {
        DeploymentMode::Adapter
    }

    /// Connecting clears an earlier stop request.
    fn connect(&mut self) -> (r: Result<(), AdapterError>)
        ensures
            r is Ok,
            final(self)@ == (Ros2View { connected: true, stop_requested: false, ..old(self)@ }),
            final(self)@ == ros_step(old(self)@, RosCall::Connect),
    {
        self.connected = true;
        self.stop_requested = false;
        Ok(())
    }

    fn disconnect(&mut self) -> (r: Result<(), AdapterError>)
        ensures
            r is Ok,
            final(self)@ == (Ros2View { connected: false, ..old(self)@ }),
            final(self)@ == ros_step(old(self)@, RosCall::Disconnect),
    {
        self.connected = false;
        Ok(())
    }

    /// Discovery needs a connected graph; each known message type becomes one
    /// enabled capability record whose source is marked as discovered.
    fn discover(&mut self) -> (r: Result<CapabilityManifestV2, AdapterError>)
        ensures
            final(self)@ == old(self)@,
            final(self)@ == ros_step(old(self)@, RosCall::Discover),
            !old(self)@.connected <==> r is Err,
            r matches Err(e) ==> e matches AdapterError::Unavailable(msg) && msg@ == "ROS 2 graph not connected"@,
            r matches Ok(m) ==> {
                &&& m.base.robot_id@ == "ros2-discovered"@
                &&& m.base.name@ == "ROS 2 discovered robot"@
                &&& m.base.architecture@ == "adapter"@
                &&& m.base.capabilities.as_set() == discovered_paths(old(self)@.endpoints)
                &&& m.capability_hash is None
                &&& forall|k: Seq<char>| #[trigger] m.records.lookup(k) is Some
                    <==> discovered_paths(old(self)@.endpoints).contains(k)
                &&& forall|k: Seq<char>| #[trigger] m.records.lookup(k) matches Some(rec) ==> {
                    &&& rec.capability.0@ == k
                    &&& rec.enabled
                    &&& rec.provenance.source_type == CapabilitySourceType::Discovered
                    &&& rec.provenance.provider@ == "ros2-adapter"@
                    &&& rec.provenance.observed_at_ms is None
                }
            },
    {
        if !self.connected {
            return Err(AdapterError::Unavailable(owned("ROS 2 graph not connected")));
        }
        let capabilities = self.discovered_capabilities();
        let base = CapabilityManifest {
            robot_id: owned("ros2-discovered"),
            name: owned("ROS 2 discovered robot"),
            architecture: owned("adapter"),
            capabilities,
        };
        let mut manifest = CapabilityManifestV2::from_static(base, "ros2-adapter");
        let ghost before = manifest;
        manifest.mark_discovered();
        proof {
            assert forall|k: Seq<char>| #[trigger] manifest.records.lookup(k) is Some implies {
                let rec = manifest.records.lookup(k)->0;
                &&& rec.capability.0@ == k
                &&& rec.enabled
                &&& rec.provenance.source_type == CapabilitySourceType::Discovered
                &&& rec.provenance.provider@ == "ros2-adapter"@
                &&& rec.provenance.observed_at_ms is None
            } by {
                assert(before.records.lookup(k) is Some);
            }
        }
        Ok(manifest)
    }

    fn health(&self) -> (h: Health)
        ensures
            h == (if self@.connected { Health::Healthy } else { Health::Offline }),
    {
        if self.connected {
            Health::Healthy
        } else {
            Health::Offline
        }
    }

    /// Endpoint count and the connection and stop flags, as text.
    fn telemetry(&self) -> (r: Result<TextMap<String>, AdapterError>)
        ensures
            r matches Ok(t) && {
                &&& t.lookup("ros2.endpoints"@) matches Some(v) && v@ == decimal(self@.endpoints.len())
                &&& t.lookup("ros2.connected"@) matches Some(v) && v@ == bool_text(self@.connected)
                &&& t.lookup("ros2.stop_requested"@) matches Some(v) && v@ == bool_text(self@.stop_requested)
                &&& forall|k: Seq<char>| #[trigger] t.lookup(k) is Some ==> k == "ros2.endpoints"@
                    || k == "ros2.connected"@ || k == "ros2.stop_requested"@
            },
    {
        let mut t: TextMap<String> = TextMap::new();
        let mut count = String::new();
        push_decimal(&mut count, self.endpoints.len() as u128);
        let mut connected = String::new();
        push_bool(&mut connected, self.connected);
        let mut stop = String::new();
        push_bool(&mut stop, self.stop_requested);
        proof {
            assert(count@ =~= decimal(self@.endpoints.len()));
            assert(connected@ =~= bool_text(self.connected));
            assert(stop@ =~= bool_text(self.stop_requested));
            reveal_strlit("ros2.endpoints");
            reveal_strlit("ros2.connected");
            reveal_strlit("ros2.stop_requested");
            assert("ros2.endpoints"@.len() != "ros2.stop_requested"@.len());
            assert("ros2.connected"@.len() != "ros2.stop_requested"@.len());
            assert("ros2.endpoints"@[5] != "ros2.connected"@[5]);
        }
        t.insert(owned("ros2.endpoints"), count);
        t.insert(owned("ros2.connected"), connected);
        t.insert(owned("ros2.stop_requested"), stop);
        Ok(t)
    }

    /// Records the stop request; it stays observable until the next connect.
    fn stop(&mut self) -> (r: Result<(), AdapterError>)
        ensures
            r is Ok,
            final(self)@ == (Ros2View { stop_requested: true, ..old(self)@ }),
            final(self)@ == ros_step(old(self)@, RosCall::Stop),
    {
        self.stop_requested = true;
        Ok(())
    }
}

} // verus!
