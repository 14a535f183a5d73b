//! The transport-neutral virtual device vocabulary used to exercise adapters in CI.
use vstd::prelude::*;
use crate::text::text_eq;

verus! {

#[derive(Clone, Copy, Debug, PartialEq, Eq, Structural)]
pub enum VirtualServoFaultState {
    NoFault,
    Overtemperature,
    Timeout,
    Disconnected,
    PositionStuck,
    Delayed,
}

#[derive(Clone, Copy, Debug, PartialEq, Eq, Structural)]
pub enum VirtualFault {
    Overtemperature,
    ServoTimeout,
    BusDisconnect,
    PositionFailure,
    ResponseDelayed,
}

/// Faults across the complete simulated robot, rather than a single actuator.
#[derive(Clone, Copy, Debug, PartialEq, Eq, Structural)]
pub enum VirtualRobotFault {
    CameraOffline,
    LidarNoisy,
    BatteryLow,
    MicrophoneOffline,
    ImuOffline,
}

#[derive(Clone, Debug, PartialEq)]
pub struct VirtualCamera {
    pub id: String,
    pub online: bool,
    pub latency_ms: u32,
}

#[derive(Clone, Debug, Default, PartialEq)]
pub struct VirtualImu {
    pub online: bool,
    pub latency_ms: u32,
}

#[derive(Clone, Debug, Default, PartialEq)]
pub struct VirtualMicrophone {
    pub online: bool,
    pub latency_ms: u32,
}

/// The cameras with the first camera named `id` taken offline.
pub open spec fn camera_offline(cams: Seq<(Seq<char>, bool, u32)>, id: Seq<char>) -> Seq<(Seq<char>, bool, u32)>
    decreases cams.len(),
{
    if cams.len() == 0 {
        cams
    } else if cams[0].0 == id {
        cams.update(0, (cams[0].0, false, cams[0].2))
    } else {
        seq![cams[0]] + camera_offline(cams.drop_first(), id)
    }
}

/// How many cameras are online.
pub open spec fn online_count(cams: Seq<(Seq<char>, bool, u32)>) -> nat
    decreases cams.len(),
{
    if cams.len() == 0 {
        0
    } else {
        online_count(cams.drop_last()) + if cams.last().1 { 1nat } else { 0nat }
    }
}

pub open spec fn camera_views(cams: Seq<VirtualCamera>) -> Seq<(Seq<char>, bool, u32)> {
    cams.map_values(|c: VirtualCamera| (c.id@, c.online, c.latency_ms))
}

/// Takes the first camera named `id` offline and returns how many cameras remain
/// online.
pub fn take_camera_offline(cameras: &mut Vec<VirtualCamera>, id: &str) -> (n: usize)
    ensures
        camera_views(final(cameras)@) == camera_offline(camera_views(old(cameras)@), id@),
        n == online_count(camera_views(final(cameras)@)),
{
    let ghost all = camera_views(cameras@);
    let mut i: usize = 0;
    let mut found = false;
    proof {
        assert(all.subrange(0, all.len() as int) =~= all);
    }
    while i < cameras.len() && !found
        invariant
            i <= cameras@.len(),
            all == camera_views(cameras@),
            found ==> i < cameras@.len() && all[i as int].0 == id@,
            camera_offline(all, id@) == all.subrange(0, i as int) + camera_offline(all.subrange(i as int, all.len() as int), id@),
        decreases cameras@.len() - i + if found { 0int } else { 1int },
    {
        let ghost rest = all.subrange(i as int, all.len() as int);
        proof {
            assert(rest.drop_first() =~= all.subrange(i + 1, all.len() as int));
            assert(rest[0] == all[i as int]);
        }
        if text_eq(cameras[i].id.as_str(), id) {
            found = true;
        } else {
            proof {
                assert(all.subrange(0, i + 1) =~= all.subrange(0, i as int).push(all[i as int]));
                assert(all.subrange(0, i as int) + camera_offline(rest, id@) =~= all.subrange(0, i + 1)
                    + camera_offline(all.subrange(i + 1, all.len() as int), id@));
            }
            i = i + 1;
        }
    }
    if found {
        let cam = VirtualCamera { id: cameras[i].id.clone(), online: false, latency_ms: cameras[i].latency_ms };
        cameras.set(i, cam);
        proof {
            let rest = all.subrange(i as int, all.len() as int);
            assert(rest[0] == all[i as int]);
            assert(camera_views(cameras@) =~= camera_offline(all, id@));
        }
    } else {
        proof {
            assert(all.subrange(0, i as int) =~= all);
            assert(all.subrange(i as int, all.len() as int) =~= Seq::<(Seq<char>, bool, u32)>::empty());
        }
    }
    let ghost now = camera_views(cameras@);
    let mut n: usize = 0;
    let mut k: usize = 0;
    while k < cameras.len()
        invariant
            k <= cameras@.len(),
            now == camera_views(cameras@),
            n == online_count(now.take(k as int)),
            n <= k,
        decreases cameras@.len() - k,
    {
        proof {
            assert(now.take(k + 1).drop_last() =~= now.take(k as int));
        }
        if cameras[k].online {
            n = n + 1;
        }
        k = k + 1;
    }
    proof {
        assert(now.take(cameras@.len() as int) =~= now);
    }
    n
}

} // verus!
