# nexus

The decision logic of Nexus Robotics OS as a Verus-verified library, with the
command-line interface and the floating-point simulator around it.

## Layout

- `src/` — the verified library (`nexus`):
  - `text`, `textmap` — string helpers and an ordered text-keyed map and set.
  - `domain`, `ncm` — capability manifests (aliases, case folding, provenance),
    safety and lifecycle states, task graphs, and the adapter boundary.
  - `brain`, `profile_manifest` — hardware profiles, capability index, memory
    plans, runtime planning, upgrade advice, and the hardware manifest format.
  - `gateway`, `watchdog`, `durable`, `reliable` — the local gateway state machine,
    heartbeat watchdogs, the event-log line format and recovery decisions, skill
    contracts and resource arbitration.
  - `skills` — the skill registry and the deterministic task planner.
  - `intelligence` — autonomy policies, goal compilation, approvals, experience
    memory and compute placement.
  - `package`, `sdk` — package manifests and adapter package skeletons.
  - `ros2`, `nori` — adapters for ROS 2 discovery and a simulated Nori profile.
  - `proving`, `sense`, `structure`, `learning`, `protocol`, `fleet`, `lerobot` —
    validation evidence, fault schedules and trial bookkeeping, and the vocabulary
    of the simulator subsystems.
- `tests/` — tests run against the compiled library.
- `app/` — the `nexus` command line and `nexusd` gateway daemon, and the parts of
  the runtime that compute with floating-point poses, batteries, sensor scores and
  world parameters.

Contracts are stated over views (`Seq<char>` for text, maps and sets for tables),
and the laws of the library are public proof functions named `law_*`.

## Text-keyed maps and sets

Tables keyed by text are `TextMap` and `TextSet` (`src/textmap.rs`): a vector of
entries kept in strictly increasing code-point order, which is a type invariant.
vstd does specify the standard B-tree collections, but their contracts speak of
keys through their views and an `Ord` that Verus has read; with `String` keys
(or keys with a derived `Ord`) calls are accepted and almost nothing about their
contents can be proved. Keeping the order as an invariant of a type of our own
lets every contract say exactly which keys come out and in which order, and
`TextSet::len` and `CapabilitySet::len` state that order and the absence of
repeats.
