//! Distributed operation: robot identity and capabilities, leader election,
//! replicated key-value state with shard hashing, and capability-based task
//! scheduling across a fleet.
use vstd::prelude::*;
use vstd::pervasive::cloned;
use vstd::string::StringSliceAdditionalSpecFns;
use std::time::{Duration, Instant};
use vstd::string::StringExecFns;
use crate::text::{decimal, push_decimal};
use crate::clock::{duration_as_nanos, duration_as_nanos_spec, duration_from_millis, instant_elapsed, instant_now};

verus! {

/// A robot's identity; ids are ordered by their number.
#[derive(Debug, Clone, Copy, PartialEq, Eq, Hash, Ord, Structural)]
pub struct RobotId(pub u64);

impl RobotId {
    pub fn new(id: u64) -> (r: Self)
        ensures
            r.0 == id,
    {
        RobotId(id)
    }

    /// Display text: `Robot(<id>)`.
    pub fn to_string(&self) -> (s: String)
        ensures
            s@ == "Robot("@ + decimal(self.0 as nat) + ")"@,
    {
        let mut s = String::new();
        s.append("Robot(");
        push_decimal(&mut s, self.0);
        s.append(")");
        s
    }
}

#[derive(Debug, Clone, Copy, PartialEq, Eq, Structural)]
pub enum NodeRole {
    Leader,
    Follower,
    Candidate,
}

impl NodeRole {
    /// Display text: the variant's name.
    pub fn as_str(&self) -> (s: &'static str)
        ensures
            *self == NodeRole::Leader ==> s@ == "Leader"@,
            *self == NodeRole::Follower ==> s@ == "Follower"@,
            *self == NodeRole::Candidate ==> s@ == "Candidate"@,
    {
        match self {
            NodeRole::Leader => "Leader",
            NodeRole::Follower => "Follower",
            NodeRole::Candidate => "Candidate",
        }
    }
}

/// The views of a sequence of strings.
pub open spec fn str_views(v: Seq<String>) -> Seq<Seq<char>> {
    v.map_values(|s: String| s@)
}

/// Whether `s` occurs among the strings of `v`.
pub open spec fn contains_str(v: Seq<String>, s: Seq<char>) -> bool {
    exists|j: int| 0 <= j < v.len() && (#[trigger] v[j])@ == s
}

fn strings_contain(v: &Vec<String>, s: &String) -> (b: bool)
    ensures
        b == contains_str(v@, s@),
{
    let mut j: usize = 0;
    while j < v.len()
        invariant
            j <= v@.len(),
            forall|k: int| 0 <= k < j ==> (#[trigger] v@[k])@ != s@,
        decreases v@.len() - j,
    {
        if v[j] == *s {
            return true;
        }
        j = j + 1;
    }
    false
}

fn owned_strings(a: &str, b: &str, c: &str, d: &str, n: usize) -> (v: Vec<String>)
    requires
        1 <= n <= 4,
    ensures
        str_views(v@) == seq![a@, b@, c@, d@].take(n as int),
{
    let mut v: Vec<String> = Vec::new();
    v.push(a.to_owned());
    if n > 1 {
        v.push(b.to_owned());
    }
    if n > 2 {
        v.push(c.to_owned());
    }
    if n > 3 {
        v.push(d.to_owned());
    }
    assert(str_views(v@) =~= seq![a@, b@, c@, d@].take(n as int));
    v
}

/// Hardware a robot offers to the scheduler.
#[derive(Debug, PartialEq, Eq)]
pub struct NodeCapabilities {
    pub cpu_cores: u32,
    pub memory_mb: u64,
    pub has_gpu: bool,
    pub sensors: Vec<String>,
    pub actuators: Vec<String>,
}

/// Minimum hardware a task needs.
#[derive(Debug, PartialEq, Eq)]
pub struct TaskRequirements {
    pub min_cpu_cores: u32,
    pub min_memory_mb: u64,
    pub requires_gpu: bool,
    pub required_sensors: Vec<String>,
}

/// A node meets a requirement when it has enough cores and memory, a GPU if one
/// is required, and every required sensor.
pub open spec fn capabilities_match(c: NodeCapabilities, r: TaskRequirements) -> bool {
    &&& c.cpu_cores >= r.min_cpu_cores
    &&& c.memory_mb >= r.min_memory_mb
    &&& (!r.requires_gpu || c.has_gpu)
    &&& forall|i: int| 0 <= i < r.required_sensors@.len() ==> contains_str(c.sensors@, (#[trigger] r.required_sensors@[i])@)
}

/// A robot meets a task's requirements exactly when it has at least the
/// required cores and memory, a GPU where one is required, and every required
/// sensor among its own sensors: a required sensor it lacks rules it out.
pub proof fn law_capabilities_match(c: NodeCapabilities, r: TaskRequirements)
    ensures
        capabilities_match(c, r) <==> {
            &&& c.cpu_cores >= r.min_cpu_cores
            &&& c.memory_mb >= r.min_memory_mb
            &&& (r.requires_gpu ==> c.has_gpu)
            &&& forall|i: int| 0 <= i < r.required_sensors@.len() ==> #[trigger] sensor_present(c.sensors@, r.required_sensors@[i]@)
        },
        (exists|i: int| 0 <= i < r.required_sensors@.len() && !#[trigger] sensor_present(c.sensors@, r.required_sensors@[i]@))
            ==> !capabilities_match(c, r),
{
    assert forall|i: int| 0 <= i < r.required_sensors@.len() implies
        #[trigger] sensor_present(c.sensors@, r.required_sensors@[i]@) == contains_str(c.sensors@, r.required_sensors@[i]@) by {
        lemma_sensor_present(c.sensors@, r.required_sensors@[i]@);
    }
    let all_present = forall|i: int| 0 <= i < r.required_sensors@.len() ==> #[trigger] sensor_present(c.sensors@, r.required_sensors@[i]@);
    let all_contained = forall|i: int| 0 <= i < r.required_sensors@.len() ==> contains_str(c.sensors@, (#[trigger] r.required_sensors@[i])@);
    assert(all_present <==> all_contained) by {
        if all_present {
            assert forall|i: int| 0 <= i < r.required_sensors@.len() implies contains_str(c.sensors@, (#[trigger] r.required_sensors@[i])@) by {
                assert(sensor_present(c.sensors@, r.required_sensors@[i]@));
            }
        }
        if all_contained {
            assert forall|i: int| 0 <= i < r.required_sensors@.len() implies #[trigger] sensor_present(c.sensors@, r.required_sensors@[i]@) by {
                assert(contains_str(c.sensors@, r.required_sensors@[i]@));
            }
        }
    }
}

/// Some sensor in `sensors` is named `s`.
pub open spec fn sensor_present(sensors: Seq<String>, s: Seq<char>) -> bool {
    exists|j: int| 0 <= j < sensors.len() && sensors[j]@ == s
}

proof fn lemma_sensor_present(sensors: Seq<String>, s: Seq<char>)
    ensures
        sensor_present(sensors, s) == contains_str(sensors, s),
{
    if sensor_present(sensors, s) {
        let j = choose|j: int| 0 <= j < sensors.len() && sensors[j]@ == s;
        assert(sensors[j]@ == s);
    }
    if contains_str(sensors, s) {
        let j = choose|j: int| 0 <= j < sensors.len() && (#[trigger] sensors[j])@ == s;
        assert(0 <= j < sensors.len() && sensors[j]@ == s);
    }
}

impl NodeCapabilities {
    pub fn high_end() -> (c: Self)
        ensures
            c.cpu_cores == 8 && c.memory_mb == 16384 && c.has_gpu,
            str_views(c.sensors@) == seq!["camera"@, "lidar"@, "radar"@, "imu"@],
            str_views(c.actuators@) == seq!["motors"@, "arm"@],
    {
        let sensors = owned_strings("camera", "lidar", "radar", "imu", 4);
        let actuators = owned_strings("motors", "arm", "", "", 2);
        assert(seq!["camera"@, "lidar"@, "radar"@, "imu"@].take(4) =~= seq!["camera"@, "lidar"@, "radar"@, "imu"@]);
        assert(seq!["motors"@, "arm"@, ""@, ""@].take(2) =~= seq!["motors"@, "arm"@]);
        NodeCapabilities { cpu_cores: 8, memory_mb: 16384, has_gpu: true, sensors, actuators }
    }

    pub fn mid_range() -> (c: Self)
        ensures
            c.cpu_cores == 4 && c.memory_mb == 8192 && c.has_gpu,
            str_views(c.sensors@) == seq!["camera"@, "lidar"@],
            str_views(c.actuators@) == seq!["motors"@],
    {
        let sensors = owned_strings("camera", "lidar", "", "", 2);
        let actuators = owned_strings("motors", "", "", "", 1);
        assert(seq!["camera"@, "lidar"@, ""@, ""@].take(2) =~= seq!["camera"@, "lidar"@]);
        assert(seq!["motors"@, ""@, ""@, ""@].take(1) =~= seq!["motors"@]);
        NodeCapabilities { cpu_cores: 4, memory_mb: 8192, has_gpu: true, sensors, actuators }
    }

    pub fn low_end() -> (c: Self)
        ensures
            c.cpu_cores == 2 && c.memory_mb == 4096 && !c.has_gpu,
            str_views(c.sensors@) == seq!["camera"@],
            str_views(c.actuators@) == seq!["motors"@],
    {
        let sensors = owned_strings("camera", "", "", "", 1);
        let actuators = owned_strings("motors", "", "", "", 1);
        assert(seq!["camera"@, ""@, ""@, ""@].take(1) =~= seq!["camera"@]);
        assert(seq!["motors"@, ""@, ""@, ""@].take(1) =~= seq!["motors"@]);
        NodeCapabilities { cpu_cores: 2, memory_mb: 4096, has_gpu: false, sensors, actuators }
    }

    pub fn matches(&self, req: &TaskRequirements) -> (b: bool)
        ensures
            b == capabilities_match(*self, *req),
    {
        if !(self.cpu_cores >= req.min_cpu_cores && self.memory_mb >= req.min_memory_mb && (
        !req.requires_gpu || self.has_gpu)) {
            return false;
        }
        let mut i: usize = 0;
        while i < req.required_sensors.len()
            invariant
                i <= req.required_sensors@.len(),
                forall|k: int| 0 <= k < i ==> contains_str(self.sensors@, (#[trigger] req.required_sensors@[k])@),
            decreases req.required_sensors@.len() - i,
        {
            if !strings_contain(&self.sensors, &req.required_sensors[i]) {
                return false;
            }
            i = i + 1;
        }
        true
    }
}

/// Two requirements ask for the same hardware.
pub open spec fn same_requirements(a: TaskRequirements, b: TaskRequirements) -> bool {
    &&& a.min_cpu_cores == b.min_cpu_cores
    &&& a.min_memory_mb == b.min_memory_mb
    &&& a.requires_gpu == b.requires_gpu
    &&& str_views(a.required_sensors@) == str_views(b.required_sensors@)
}

fn clone_strings(v: &Vec<String>) -> (r: Vec<String>)
    ensures
        str_views(r@) == str_views(v@),
{
    let mut r: Vec<String> = Vec::new();
    let mut i: usize = 0;
    while i < v.len()
        invariant
            i <= v@.len(),
            r@.len() == i,
            forall|j: int| 0 <= j < i ==> (#[trigger] r@[j])@ == v@[j]@,
        decreases v@.len() - i,
    {
        r.push(v[i].clone());
        i = i + 1;
    }
    assert(str_views(r@) =~= str_views(v@));
    r
}

/// Two capability records describe the same hardware.
pub open spec fn same_capabilities(a: NodeCapabilities, b: NodeCapabilities) -> bool {
    &&& a.cpu_cores == b.cpu_cores
    &&& a.memory_mb == b.memory_mb
    &&& a.has_gpu == b.has_gpu
    &&& str_views(a.sensors@) == str_views(b.sensors@)
    &&& str_views(a.actuators@) == str_views(b.actuators@)
}

impl Clone for NodeCapabilities {
    fn clone(&self) -> (r: Self)
        ensures
            same_capabilities(r, *self),
    {
        NodeCapabilities {
            cpu_cores: self.cpu_cores,
            memory_mb: self.memory_mb,
            has_gpu: self.has_gpu,
            sensors: clone_strings(&self.sensors),
            actuators: clone_strings(&self.actuators),
        }
    }
}

impl Clone for TaskRequirements {
    fn clone(&self) -> (r: Self)
        ensures
            same_requirements(r, *self),
    {
        TaskRequirements {
            min_cpu_cores: self.min_cpu_cores,
            min_memory_mb: self.min_memory_mb,
            requires_gpu: self.requires_gpu,
            required_sensors: clone_strings(&self.required_sensors),
        }
    }
}

impl Default for TaskRequirements {
    fn default() -> (r: Self)
        ensures
            r.min_cpu_cores == 1 && r.min_memory_mb == 512 && !r.requires_gpu,
            r.required_sensors@.len() == 0,
    {
        TaskRequirements { min_cpu_cores: 1, min_memory_mb: 512, requires_gpu: false, required_sensors: Vec::new() }
    }
}

// ---------------------------------------------------------------------------
// Leader election
// ---------------------------------------------------------------------------

/// A known robot: identity, role, address ("host:port"), last heartbeat and hardware.
#[derive(Debug)]
pub struct NodeInfo {
    pub id: RobotId,
    pub role: NodeRole,
    pub address: String,
    pub last_heartbeat: Instant,
    pub capabilities: NodeCapabilities,
}

/// Two records describe the same robot in the same state.
pub open spec fn same_node(a: NodeInfo, b: NodeInfo) -> bool {
    &&& a.id == b.id
    &&& a.role == b.role
    &&& a.address@ == b.address@
    &&& a.last_heartbeat == b.last_heartbeat
    &&& same_capabilities(a.capabilities, b.capabilities)
}

impl Clone for NodeInfo {
    fn clone(&self) -> (r: Self)
        ensures
            same_node(r, *self),
    {
        NodeInfo {
            id: self.id,
            role: self.role,
            address: self.address.clone(),
            last_heartbeat: self.last_heartbeat.clone(),
            capabilities: self.capabilities.clone(),
        }
    }
}

/// One step of the linear congruential generator behind simulated votes.
pub open spec fn lcg_step(seed: u64) -> u64 {
    seed.wrapping_mul(1103515245).wrapping_add(12345)
}

/// A draw grants a vote with probability 0.7: its value modulo 1000 is below 700.
pub open spec fn lcg_grants(seed: u64) -> bool {
    lcg_step(seed) % 1000 < 700
}

/// The generator state after `n` draws.
pub open spec fn lcg_iter(seed: u64, n: nat) -> u64
    decreases n,
{
    if n == 0 {
        seed
    } else {
        lcg_step(lcg_iter(seed, (n - 1) as nat))
    }
}

/// Robot ids of the peers whose draw granted a vote, for draws starting at `seed`.
pub open spec fn granted_ids(peers: Seq<NodeInfo>, seed: u64) -> Set<RobotId> {
    Set::new(|id: RobotId| exists|i: int| 0 <= i < peers.len() && (#[trigger] peers[i]).id == id
        && lcg_grants(lcg_iter(seed, i as nat)))
}

/// Raft-style leader election in which peers' votes are simulated by a
/// deterministic pseudo-random generator.
pub struct LeaderElection {
    pub node_id: RobotId,
    pub role: NodeRole,
    pub current_term: u64,
    pub peers: Vec<NodeInfo>,
    pub votes_received: Vec<RobotId>,
    pub election_timeout: Duration,
    pub heartbeat_interval: Duration,
    pub last_heartbeat: Instant,
    pub leader_id: Option<RobotId>,
    pub vote_seed: u64,
}

/// A heartbeat `elapsed` ago has expired under `timeout` when strictly more
/// time than the timeout has passed.
pub fn heartbeat_expired(elapsed: Duration, timeout: Duration) -> (b: bool)
    ensures
        b == (duration_as_nanos_spec(elapsed) > duration_as_nanos_spec(timeout)),
{
    duration_as_nanos(elapsed) > duration_as_nanos(timeout)
}

/// Some peer of `s` has id `id`.
pub open spec fn has_peer(s: Seq<NodeInfo>, id: RobotId) -> bool {
    exists|i: int| 0 <= i < s.len() && (#[trigger] s[i]).id == id
}

/// The ids of `s` are pairwise distinct.
pub open spec fn ids_distinct(s: Seq<RobotId>) -> bool {
    forall|i: int, j: int| 0 <= i < j < s.len() ==> s[i] != s[j]
}

/// The peers of `s` have pairwise distinct ids.
pub open spec fn peer_ids_distinct(s: Seq<NodeInfo>) -> bool {
    forall|i: int, j: int| 0 <= i < j < s.len() ==> (#[trigger] s[i]).id != (#[trigger] s[j]).id
}

/// Inserts `info` into `v`, replacing the node with the same id if there is one.
pub fn upsert_node(v: &mut Vec<NodeInfo>, info: NodeInfo)
    requires
        peer_ids_distinct(old(v)@),
    ensures
        peer_ids_distinct(final(v)@),
        exists|i: int| 0 <= i < final(v)@.len() && final(v)@[i] == info,
        forall|id: RobotId| id != info.id ==> (has_peer(old(v)@, id) <==> #[trigger] has_peer(final(v)@, id)),
        final(v)@.len() == old(v)@.len() + if has_peer(old(v)@, info.id) { 0int } else { 1int },
{
    let mut i: usize = 0;
    while i < v.len()
        invariant
            i <= v@.len(),
            *v == *old(v),
            peer_ids_distinct(v@),
            forall|j: int| 0 <= j < i ==> (#[trigger] v@[j]).id != info.id,
        decreases v@.len() - i,
    {
        if v[i].id == info.id {
            let ghost old_peers = v@;
            v.set(i, info);
            proof {
                assert(v@[i as int] == info);
                assert forall|a: int, b: int| 0 <= a < b < v@.len() implies
                    (#[trigger] v@[a]).id != (#[trigger] v@[b]).id by {
                    assert(old_peers[a].id != old_peers[b].id);
                }
                assert(has_peer(old_peers, info.id));
                assert forall|id: RobotId| id != info.id implies (has_peer(old_peers, id) <==> #[trigger] has_peer(v@, id)) by {
                    if exists|j: int| 0 <= j < old_peers.len() && (#[trigger] old_peers[j]).id == id {
                        let j = choose|j: int| 0 <= j < old_peers.len() && (#[trigger] old_peers[j]).id == id;
                        assert(v@[j].id == id);
                    }
                    if exists|j: int| 0 <= j < v@.len() && (#[trigger] v@[j]).id == id {
                        let j = choose|j: int| 0 <= j < v@.len() && (#[trigger] v@[j]).id == id;
                        assert(old_peers[j].id == id);
                    }
                }
            }
            return;
        }
        i = i + 1;
    }
    let ghost old_peers = v@;
    v.push(info);
    proof {
        assert(v@[old_peers.len() as int] == info);
        assert(!has_peer(old_peers, info.id));
        assert forall|id: RobotId| id != info.id implies (has_peer(old_peers, id) <==> #[trigger] has_peer(v@, id)) by {
            if exists|j: int| 0 <= j < old_peers.len() && (#[trigger] old_peers[j]).id == id {
                let j = choose|j: int| 0 <= j < old_peers.len() && (#[trigger] old_peers[j]).id == id;
                assert(v@[j].id == id);
            }
            if exists|j: int| 0 <= j < v@.len() && (#[trigger] v@[j]).id == id {
                let j = choose|j: int| 0 <= j < v@.len() && (#[trigger] v@[j]).id == id;
                assert(j < old_peers.len());
                assert(old_peers[j].id == id);
            }
        }
    }
}


impl LeaderElection {
    pub open spec fn wf(&self) -> bool {
        &&& peer_ids_distinct(self.peers@)
        &&& ids_distinct(self.votes_received@)
    }

    /// A follower in term 0 with no peers, no leader, a 1.5 s election timeout
    /// and a 0.5 s heartbeat interval.
    pub fn new(node_id: RobotId) -> (e: Self)
        ensures
            e.wf(),
            e.node_id == node_id,
            e.role == NodeRole::Follower,
            e.current_term == 0,
            e.peers@.len() == 0,
            e.votes_received@.len() == 0,
            e.leader_id is None,
            e.vote_seed == 0x12345678,
            duration_as_nanos_spec(e.election_timeout) == 1_500_000_000,
            duration_as_nanos_spec(e.heartbeat_interval) == 500_000_000,
    {
        LeaderElection {
            node_id,
            role: NodeRole::Follower,
            current_term: 0,
            peers: Vec::new(),
            votes_received: Vec::new(),
            election_timeout: duration_from_millis(1500),
            heartbeat_interval: duration_from_millis(500),
            last_heartbeat: instant_now(),
            leader_id: None,
            vote_seed: 0x12345678,
        }
    }

    pub fn with_timeouts(self, election: Duration, heartbeat: Duration) -> (e: Self)
        ensures
            e == (LeaderElection { election_timeout: election, heartbeat_interval: heartbeat, ..self }),
    {
        let mut e = self;
        e.election_timeout = election;
        e.heartbeat_interval = heartbeat;
        e
    }

    /// Adds a peer, replacing a known peer with the same id.
    #[verifier::spinoff_prover]
    pub fn add_peer(&mut self, info: NodeInfo)
        requires
            old(self).wf(),
        ensures
            final(self).wf(),
            exists|i: int| 0 <= i < final(self).peers@.len() && final(self).peers@[i] == info,
            forall|id: RobotId| id != info.id ==> (has_peer(old(self).peers@, id) <==> #[trigger] has_peer(final(self).peers@, id)),
            final(self).peers@.len() == old(self).peers@.len() + if has_peer(old(self).peers@, info.id) { 0int } else { 1int },
            final(self).role == old(self).role && final(self).current_term == old(self).current_term,
            final(self).leader_id == old(self).leader_id && final(self).votes_received == old(self).votes_received,
            final(self).node_id == old(self).node_id && final(self).vote_seed == old(self).vote_seed,
    {
        let ghost target = info;
        upsert_node(&mut self.peers, info);
        proof {
            let k = choose|k: int| 0 <= k < self.peers@.len() && self.peers@[k] == target;
            assert(0 <= k < self.peers@.len() && self.peers@[k] == target);
        }
    }

    pub fn peer_count(&self) -> (n: usize)
        ensures
            n == self.peers@.len(),
    {
        self.peers.len()
    }

    fn should_grant_vote(&mut self) -> (granted: bool)
        ensures
            final(self).vote_seed == lcg_step(old(self).vote_seed),
            granted == lcg_grants(old(self).vote_seed),
            *final(self) == (LeaderElection { vote_seed: final(self).vote_seed, ..*old(self) }),
    {
        let new_seed = self.vote_seed.wrapping_mul(1103515245).wrapping_add(12345);
        self.vote_seed = new_seed;
        new_seed % 1000 < 700
    }

    fn record_vote(&mut self, id: RobotId)
        requires
            ids_distinct(old(self).votes_received@),
        ensures
            ids_distinct(final(self).votes_received@),
            final(self).votes_received@.to_set() == old(self).votes_received@.to_set().insert(id),
            *final(self) == (LeaderElection { votes_received: final(self).votes_received, ..*old(self) }),
    {
        let mut i: usize = 0;
        while i < self.votes_received.len()
            invariant
                i <= self.votes_received@.len(),
                self == old(self),
                ids_distinct(self.votes_received@),
                forall|j: int| 0 <= j < i ==> self.votes_received@[j] != id,
            decreases self.votes_received@.len() - i,
        {
            if self.votes_received[i] == id {
                proof {
                    assert(self.votes_received@.to_set() =~= self.votes_received@.to_set().insert(id)) by {
                        assert(self.votes_received@.contains(id));
                    }
                }
                return;
            }
            i = i + 1;
        }
        let ghost before = self.votes_received@;
        self.votes_received.push(id);
        proof {
            assert(self.votes_received@ == before.push(id));
            assert(self.votes_received@.to_set() =~= before.to_set().insert(id)) by {
                assert forall|x: RobotId| self.votes_received@.contains(x) <==> before.to_set().insert(id).contains(x) by {
                    if self.votes_received@.contains(x) && x != id {
                        let j = choose|j: int| 0 <= j < self.votes_received@.len() && self.votes_received@[j] == x;
                        assert(before[j] == x);
                    }
                    if before.contains(x) {
                        let j = choose|j: int| 0 <= j < before.len() && before[j] == x;
                        assert(self.votes_received@[j] == x);
                    }
                    if x == id {
                        assert(self.votes_received@[before.len() as int] == id);
                    }
                }
            }
        }
    }

    /// Starts an election for the next term: becomes a candidate, votes for
    /// itself, collects the peers' simulated votes, and becomes leader when the
    /// votes reach a majority of the peers plus itself; otherwise follower again.
    pub fn start_election(&mut self) -> (won: bool)
        requires
            old(self).current_term < u64::MAX,
            old(self).peers@.len() < usize::MAX,
        ensures
            ids_distinct(final(self).votes_received@),
            final(self).current_term == old(self).current_term + 1,
            final(self).votes_received@.to_set() == granted_ids(old(self).peers@, old(self).vote_seed).insert(old(self).node_id),
            final(self).vote_seed == lcg_iter(old(self).vote_seed, old(self).peers@.len()),
            won == (final(self).votes_received@.len() >= (old(self).peers@.len() + 1) / 2 + 1),
            won ==> final(self).role == NodeRole::Leader && final(self).leader_id == Some(old(self).node_id),
            !won ==> final(self).role == NodeRole::Follower && final(self).leader_id == old(self).leader_id,
            final(self).peers == old(self).peers,
            final(self).node_id == old(self).node_id,
            final(self).election_timeout == old(self).election_timeout,
            final(self).heartbeat_interval == old(self).heartbeat_interval,
            final(self).last_heartbeat == old(self).last_heartbeat,
    {
        self.current_term = self.current_term + 1;
        self.role = NodeRole::Candidate;
        self.votes_received.clear();
        let own = self.node_id;
        self.record_vote(own);
        let total_nodes = self.peers.len() + 1;
        let votes_needed = total_nodes / 2 + 1;
        let ghost seed0 = old(self).vote_seed;
        let ghost peers = self.peers@;
        let mut i: usize = 0;
        while i < self.peers.len()
            invariant
                i <= peers.len(),
                self.peers@ == peers,
                self.peers == old(self).peers,
                self.node_id == own,
                own == old(self).node_id,
                self.current_term == old(self).current_term + 1,
                self.leader_id == old(self).leader_id,
                self.election_timeout == old(self).election_timeout,
                self.heartbeat_interval == old(self).heartbeat_interval,
                self.last_heartbeat == old(self).last_heartbeat,
                ids_distinct(self.votes_received@),
                self.vote_seed == lcg_iter(seed0, i as nat),
                self.votes_received@.to_set() == granted_ids(peers.take(i as int), seed0).insert(own),
            decreases peers.len() - i,
        {
            let peer_id = self.peers[i].id;
            let ghost before = self.votes_received@.to_set();
            let granted = self.should_grant_vote();
            if granted {
                self.record_vote(peer_id);
            }
            proof {
                let t = peers.take(i + 1 as int);
                assert(granted_ids(t, seed0) =~= if granted {
                    granted_ids(peers.take(i as int), seed0).insert(peer_id)
                } else {
                    granted_ids(peers.take(i as int), seed0)
                }) by {
                    assert forall|id: RobotId| granted_ids(t, seed0).contains(id) == (if granted {
                        granted_ids(peers.take(i as int), seed0).insert(peer_id)
                    } else {
                        granted_ids(peers.take(i as int), seed0)
                    }).contains(id) by {
                        if granted_ids(t, seed0).contains(id) {
                            let j = choose|j: int| 0 <= j < t.len() && (#[trigger] t[j]).id == id && lcg_grants(lcg_iter(seed0, j as nat));
                            if j < i {
                                assert(peers.take(i as int)[j] == t[j]);
                            }
                        }
                        if granted_ids(peers.take(i as int), seed0).contains(id) {
                            let j = choose|j: int| 0 <= j < peers.take(i as int).len() && (#[trigger] peers.take(i as int)[j]).id == id && lcg_grants(lcg_iter(seed0, j as nat));
                            assert(t[j] == peers.take(i as int)[j]);
                        }
                        if granted && id == peer_id {
                            assert(t[i as int].id == id);
                        }
                    }
                }
                if granted {
                    assert(self.votes_received@.to_set() =~= granted_ids(t, seed0).insert(own));
                } else {
                    assert(self.votes_received@.to_set() =~= granted_ids(t, seed0).insert(own));
                }
            }
            i = i + 1;
        }
        proof {
            assert(peers.take(peers.len() as int) =~= peers);
        }
        if self.votes_received.len() >= votes_needed {
            let term = self.current_term;
            self.become_leader(term);
            true
        } else {
            self.role = NodeRole::Follower;
            false
        }
    }

    /// Takes the lead for `term` (the current term).
    fn become_leader(&mut self, _term: u64)
        ensures
            *final(self) == (LeaderElection { role: NodeRole::Leader, leader_id: Some(old(self).node_id), ..*old(self) }),
    {
        self.role = NodeRole::Leader;
        self.leader_id = Some(self.node_id);
    }

    /// Becomes a follower of `leader` in `term`.
    pub fn become_follower(&mut self, leader: RobotId, term: u64)
        ensures
            final(self).role == NodeRole::Follower,
            final(self).current_term == term,
            final(self).leader_id == Some(leader),
            final(self).peers == old(self).peers && final(self).votes_received == old(self).votes_received,
            final(self).node_id == old(self).node_id && final(self).vote_seed == old(self).vote_seed,
    {
        self.role = NodeRole::Follower;
        self.current_term = term;
        self.leader_id = Some(leader);
        self.last_heartbeat = instant_now();
    }

    /// A leader restarts its heartbeat clock; others do nothing.
    pub fn send_heartbeat(&mut self)
        ensures
            old(self).role != NodeRole::Leader ==> *final(self) == *old(self),
            old(self).role == NodeRole::Leader ==> *final(self) == (LeaderElection { last_heartbeat: final(self).last_heartbeat, ..*old(self) }),
    {
        if !self.is_leader() {
            return;
        }
        self.last_heartbeat = instant_now();
    }

    /// A heartbeat from `leader_id` in `term`: ignored when stale; otherwise
    /// the node adopts the term and follows that leader.
    pub fn receive_heartbeat(&mut self, leader_id: RobotId, term: u64)
        ensures
            term < old(self).current_term ==> *final(self) == *old(self),
            term >= old(self).current_term ==> final(self).current_term == term
                && final(self).role == NodeRole::Follower && final(self).leader_id == Some(leader_id),
            final(self).current_term >= old(self).current_term,
            final(self).peers == old(self).peers && final(self).votes_received == old(self).votes_received,
            final(self).node_id == old(self).node_id && final(self).vote_seed == old(self).vote_seed,
    {
        if term < self.current_term {
            return;
        }
        self.current_term = term;
        self.role = NodeRole::Follower;
        self.leader_id = Some(leader_id);
        self.last_heartbeat = instant_now();
    }

    /// A non-leader whose last heartbeat is older than the election timeout has
    /// lost its leader; a leader never times out.
    pub fn check_leader_timeout(&self) -> (timed_out: bool)
        ensures
            self.role == NodeRole::Leader ==> !timed_out,
    {
        if self.is_leader() {
            return false;
        }
        let elapsed = instant_elapsed(&self.last_heartbeat);
        self.timed_out_after(elapsed)
    }

    /// Whether this node, `elapsed` after its last heartbeat, has lost its
    /// leader: a non-leader has exactly when strictly more time than its
    /// election timeout has passed; a leader never has.
    pub fn timed_out_after(&self, elapsed: Duration) -> (timed_out: bool)
        ensures
            timed_out <==> (self.role != NodeRole::Leader
                && duration_as_nanos_spec(elapsed) > duration_as_nanos_spec(self.election_timeout)),
    {
        !self.is_leader() && heartbeat_expired(elapsed, self.election_timeout)
    }

    pub fn is_leader(&self) -> (b: bool)
        ensures
            b == (self.role == NodeRole::Leader),
    {
        self.role == NodeRole::Leader
    }

    pub fn get_leader(&self) -> (l: Option<RobotId>)
        ensures
            l == self.leader_id,
    {
        self.leader_id
    }

    pub fn role(&self) -> (r: NodeRole)
        ensures
            r == self.role,
    {
        self.role
    }

    pub fn term(&self) -> (t: u64)
        ensures
            t == self.current_term,
    {
        self.current_term
    }
}

impl ElectionEngine for LeaderElection {
    /// Runs `LeaderElection::start_election`; where the term or the peer count
    /// has no room left, nothing changes and the election is not won.
    fn start_election(&mut self) -> (won: bool)
        ensures
            (old(self).current_term == u64::MAX || old(self).peers@.len() == usize::MAX) ==> !won
                && *final(self) == *old(self),
            (old(self).current_term < u64::MAX && old(self).peers@.len() < usize::MAX) ==> {
                &&& final(self).current_term == old(self).current_term + 1
                &&& final(self).votes_received@.to_set() == granted_ids(old(self).peers@, old(self).vote_seed).insert(old(self).node_id)
                &&& won == (final(self).votes_received@.len() >= (old(self).peers@.len() + 1) / 2 + 1)
                &&& won ==> final(self).role == NodeRole::Leader
                &&& final(self).election_timeout == old(self).election_timeout
                &&& final(self).heartbeat_interval == old(self).heartbeat_interval
                &&& final(self).last_heartbeat == old(self).last_heartbeat
            },
    {
        if self.current_term == u64::MAX || self.peers.len() == usize::MAX {
            return false;
        }
        LeaderElection::start_election(self)
    }

    fn is_leader(&self) -> (b: bool)
        ensures
            b == (self.role == NodeRole::Leader),
    {
        LeaderElection::is_leader(self)
    }

    fn term(&self) -> (t: u64)
        ensures
            t == self.current_term,
    {
        LeaderElection::term(self)
    }

    fn is_simulated(&self) -> (b: bool)
        ensures
            b,
    {
        true
    }
}

// ---------------------------------------------------------------------------
// Raft state and election engines
// ---------------------------------------------------------------------------

#[derive(Debug, Clone)]
pub struct RaftState {
    pub current_term: u64,
    pub voted_for: Option<RobotId>,
    pub log: Vec<LogEntry>,
}

#[derive(Debug, Clone, PartialEq, Eq)]
pub struct LogEntry {
    pub term: u64,
    pub index: u64,
    pub command: String,
}

/// Election engines, so fleet code can run over either kind.
pub trait ElectionEngine {
    fn start_election(&mut self) -> bool;

    fn is_leader(&self) -> bool;

    fn term(&self) -> u64;

    fn is_simulated(&self) -> bool;
}

/// The Raft engine: RPCs are not yet implemented, so it never wins an election
/// and rejects every vote request and append.
#[derive(Debug)]
pub struct RaftElection {
    pub node_id: RobotId,
    pub current_term: u64,
    pub voted_for: Option<RobotId>,
    pub log: Vec<LogEntry>,
    pub commit_index: u64,
    pub last_applied: u64,
    pub role: NodeRole,
    pub election_timeout: Duration,
    pub heartbeat_interval: Duration,
}

impl RaftElection {
    pub fn new(node_id: RobotId) -> (r: Self)
        ensures
            r.node_id == node_id,
            r.current_term == 0,
            r.voted_for is None,
            r.log@.len() == 0,
            r.commit_index == 0 && r.last_applied == 0,
            r.role == NodeRole::Follower,
            duration_as_nanos_spec(r.election_timeout) == 1_500_000_000,
            duration_as_nanos_spec(r.heartbeat_interval) == 500_000_000,
    {
        RaftElection {
            node_id,
            current_term: 0,
            voted_for: None,
            log: Vec::new(),
            commit_index: 0,
            last_applied: 0,
            role: NodeRole::Follower,
            election_timeout: duration_from_millis(1500),
            heartbeat_interval: duration_from_millis(500),
        }
    }

    pub fn request_vote_rpc(&self, peer: RobotId) -> (granted: bool)
        ensures
            !granted,
    {
        false
    }

    pub fn append_entries_rpc(&self, entries: Vec<LogEntry>) -> (accepted: bool)
        ensures
            !accepted,
    {
        false
    }
}

impl ElectionEngine for RaftElection {
    fn start_election(&mut self) -> (won: bool)
        ensures
            !won,
            *final(self) == *old(self),
    {
        false
    }

    fn is_leader(&self) -> (b: bool)
        ensures
            b == (self.role == NodeRole::Leader),
    {
        self.role == NodeRole::Leader
    }

    fn term(&self) -> (t: u64)
        ensures
            t == self.current_term,
    {
        self.current_term
    }

    fn is_simulated(&self) -> (b: bool)
        ensures
            !b,
    {
        false
    }
}

// ---------------------------------------------------------------------------
// Replicated key-value state
// ---------------------------------------------------------------------------

#[derive(Debug, Clone, Copy, PartialEq, Eq, Structural)]
pub enum ReplicationMode {
    /// Writes stay local.
    Simulated,
    /// Writes would go to the replicas of the key's shard.
    Real,
}

/// Key-value state of one node with a version counter; each write bumps the
/// version. Keys are strings and occur at most once.
pub struct DistributedState<T> {
    pub local_data: Vec<(String, T)>,
    pub replication_factor: usize,
    pub node_id: RobotId,
    pub version: u64,
    pub replication_mode: ReplicationMode,
}

/// The entries of `s` have pairwise distinct keys.
pub open spec fn keys_distinct<T>(s: Seq<(String, T)>) -> bool {
    forall|i: int, j: int| 0 <= i < j < s.len() ==> (#[trigger] s[i]).0@ != (#[trigger] s[j]).0@
}

/// The map from key views to values that a list of entries stands for.
pub open spec fn entries_map<T>(s: Seq<(String, T)>) -> Map<Seq<char>, T> {
    Map::new(
        |k: Seq<char>| exists|i: int| 0 <= i < s.len() && (#[trigger] s[i]).0@ == k,
        |k: Seq<char>| s[choose|i: int| 0 <= i < s.len() && (#[trigger] s[i]).0@ == k].1,
    )
}

proof fn lemma_entries_map_at<T>(s: Seq<(String, T)>, i: int)
    requires
        keys_distinct(s),
        0 <= i < s.len(),
    ensures
        entries_map(s).contains_key(s[i].0@),
        entries_map(s)[s[i].0@] == s[i].1,
{
    let k = s[i].0@;
    assert(0 <= i < s.len() && s[i].0@ == k);
    let j = choose|j: int| 0 <= j < s.len() && (#[trigger] s[j]).0@ == k;
    if j != i {
        if j < i {
            assert(s[j].0@ != s[i].0@);
        } else {
            assert(s[i].0@ != s[j].0@);
        }
    }
}

proof fn lemma_entries_map_push<T>(s: Seq<(String, T)>, e: (String, T))
    requires
        keys_distinct(s),
        !entries_map(s).contains_key(e.0@),
    ensures
        keys_distinct(s.push(e)),
        entries_map(s.push(e)) =~= entries_map(s).insert(e.0@, e.1),
{
    let t = s.push(e);
    assert forall|i: int, j: int| 0 <= i < j < t.len() implies (#[trigger] t[i]).0@ != (#[trigger] t[j]).0@ by {
        if j == s.len() {
            if t[i].0@ == e.0@ {
                assert(0 <= i < s.len() && s[i].0@ == e.0@);
            }
        } else {
            assert(s[i] == t[i] && s[j] == t[j]);
        }
    }
    assert forall|k: Seq<char>| #![auto] entries_map(t).contains_key(k) == entries_map(s).insert(e.0@, e.1).contains_key(k) by {
        if entries_map(s).contains_key(k) {
            let i = choose|i: int| 0 <= i < s.len() && (#[trigger] s[i]).0@ == k;
            assert(t[i] == s[i]);
        }
        if k == e.0@ {
            assert(t[s.len() as int] == e);
        }
        if entries_map(t).contains_key(k) && k != e.0@ {
            let i = choose|i: int| 0 <= i < t.len() && (#[trigger] t[i]).0@ == k;
            assert(i < s.len());
            assert(s[i] == t[i]);
        }
    }
    assert forall|k: Seq<char>| #[trigger] entries_map(t).contains_key(k) implies entries_map(t)[k] == entries_map(s).insert(e.0@, e.1)[k] by {
        if k == e.0@ {
            lemma_entries_map_at(t, s.len() as int);
        } else {
            let i = choose|i: int| 0 <= i < t.len() && (#[trigger] t[i]).0@ == k;
            assert(i < s.len());
            assert(s[i] == t[i]);
            lemma_entries_map_at(t, i);
            lemma_entries_map_at(s, i);
        }
    }
}

proof fn lemma_entries_map_update<T>(s: Seq<(String, T)>, i: int, e: (String, T))
    requires
        keys_distinct(s),
        0 <= i < s.len(),
        s[i].0@ == e.0@,
    ensures
        keys_distinct(s.update(i, e)),
        entries_map(s.update(i, e)) =~= entries_map(s).insert(e.0@, e.1),
{
    let t = s.update(i, e);
    assert forall|a: int, b: int| 0 <= a < b < t.len() implies (#[trigger] t[a]).0@ != (#[trigger] t[b]).0@ by {
        assert(s[a].0@ != s[b].0@);
    }
    lemma_entries_map_at(s, i);
    assert forall|k: Seq<char>| #![auto] entries_map(t).contains_key(k) == entries_map(s).insert(e.0@, e.1).contains_key(k) by {
        if entries_map(s).contains_key(k) {
            let j = choose|j: int| 0 <= j < s.len() && (#[trigger] s[j]).0@ == k;
            assert(t[j].0@ == k);
        }
        if entries_map(t).contains_key(k) {
            let j = choose|j: int| 0 <= j < t.len() && (#[trigger] t[j]).0@ == k;
            assert(s[j].0@ == k);
        }
        if k == e.0@ {
            assert(t[i].0@ == k);
        }
    }
    assert forall|k: Seq<char>| #[trigger] entries_map(t).contains_key(k) implies entries_map(t)[k] == entries_map(s).insert(e.0@, e.1)[k] by {
        let j = choose|j: int| 0 <= j < t.len() && (#[trigger] t[j]).0@ == k;
        lemma_entries_map_at(t, j);
        if j != i {
            lemma_entries_map_at(s, j);
        }
    }
}

proof fn lemma_entries_map_remove<T>(s: Seq<(String, T)>, i: int)
    requires
        keys_distinct(s),
        0 <= i < s.len(),
    ensures
        keys_distinct(s.remove(i)),
        entries_map(s.remove(i)) =~= entries_map(s).remove(s[i].0@),
{
    let t = s.remove(i);
    let k0 = s[i].0@;
    assert forall|a: int, b: int| 0 <= a < b < t.len() implies (#[trigger] t[a]).0@ != (#[trigger] t[b]).0@ by {
        let a2 = if a < i { a } else { a + 1 };
        let b2 = if b < i { b } else { b + 1 };
        assert(t[a] == s[a2] && t[b] == s[b2]);
        assert(s[a2].0@ != s[b2].0@);
    }
    assert forall|k: Seq<char>| #![auto] entries_map(t).contains_key(k) == entries_map(s).remove(k0).contains_key(k) by {
        if entries_map(t).contains_key(k) {
            let j = choose|j: int| 0 <= j < t.len() && (#[trigger] t[j]).0@ == k;
            let j2 = if j < i { j } else { j + 1 };
            assert(t[j] == s[j2]);
            assert(s[j2].0@ != s[i].0@) by {
                if j2 < i {
                    assert(s[j2].0@ != s[i].0@);
                } else {
                    assert(s[i].0@ != s[j2].0@);
                }
            }
        }
        if entries_map(s).contains_key(k) && k != k0 {
            let j = choose|j: int| 0 <= j < s.len() && (#[trigger] s[j]).0@ == k;
            assert(j != i);
            let j2 = if j < i { j } else { j - 1 };
            assert(t[j2] == s[j]);
        }
    }
    assert forall|k: Seq<char>| #[trigger] entries_map(t).contains_key(k) implies entries_map(t)[k] == entries_map(s).remove(k0)[k] by {
        let j = choose|j: int| 0 <= j < t.len() && (#[trigger] t[j]).0@ == k;
        let j2 = if j < i { j } else { j + 1 };
        assert(t[j] == s[j2]);
        lemma_entries_map_at(t, j);
        lemma_entries_map_at(s, j2);
    }
}

/// A read gives back the last write: after `set` stores `v` under `k` (taking
/// `before` to `written`), the key is present with value `v`, so `get` returns
/// it, and every other key keeps its value; after `delete` removes `k` again
/// (taking `written` to `deleted`), it is absent and the others are still as
/// they were before the write.
pub proof fn law_state_read_after_write<T: Clone>(
    before: DistributedState<T>,
    written: DistributedState<T>,
    deleted: DistributedState<T>,
    k: Seq<char>,
    v: T,
    other: Seq<char>,
)
    requires
        other != k,
        written.data() == before.data().insert(k, v),
        deleted.data() == written.data().remove(k),
    ensures
        written.data().contains_key(k),
        written.data()[k] == v,
        written.data().contains_key(other) == before.data().contains_key(other),
        before.data().contains_key(other) ==> written.data()[other] == before.data()[other],
        !deleted.data().contains_key(k),
        deleted.data().contains_key(other) == before.data().contains_key(other),
        before.data().contains_key(other) ==> deleted.data()[other] == before.data()[other],
{
}

impl<T: Clone> DistributedState<T> {
    /// Keys are distinct.
    pub closed spec fn wf(&self) -> bool {
        keys_distinct(self.local_data@)
    }

    /// The stored data: key views to values.
    pub closed spec fn data(&self) -> Map<Seq<char>, T> {
        entries_map(self.local_data@)
    }

    pub fn new(node_id: RobotId, replication_factor: usize) -> (s: Self)
        ensures
            s.wf(),
            s.data() == Map::<Seq<char>, T>::empty(),
            s.node_id == node_id,
            s.replication_factor == replication_factor,
            s.version == 0,
            s.replication_mode == ReplicationMode::Simulated,
    {
        let s = DistributedState {
            local_data: Vec::new(),
            replication_factor,
            node_id,
            version: 0,
            replication_mode: ReplicationMode::Simulated,
        };
        assert(s.data() =~= Map::<Seq<char>, T>::empty());
        s
    }

    pub fn with_replication_mode(self, mode: ReplicationMode) -> (s: Self)
        ensures
            s.data() == self.data(),
            s.wf() == self.wf(),
            s.replication_mode == mode,
            s.version == self.version,
            s.node_id == self.node_id,
            s.replication_factor == self.replication_factor,
    {
        let mut s = self;
        s.replication_mode = mode;
        s
    }

    pub fn is_simulated(&self) -> (b: bool)
        ensures
            b == (self.replication_mode == ReplicationMode::Simulated),
    {
        self.replication_mode == ReplicationMode::Simulated
    }

    fn find(&self, key: &String) -> (r: Option<usize>)
        requires
            self.wf(),
        ensures
            r is None ==> !self.data().contains_key(key@),
            r matches Some(i) ==> i < self.local_data@.len() && self.local_data@[i as int].0@ == key@,
    {
        let mut i: usize = 0;
        while i < self.local_data.len()
            invariant
                i <= self.local_data@.len(),
                forall|j: int| 0 <= j < i ==> (#[trigger] self.local_data@[j]).0@ != key@,
            decreases self.local_data@.len() - i,
        {
            if self.local_data[i].0 == *key {
                return Some(i);
            }
            i = i + 1;
        }
        None
    }

    /// Stores `value` under `key` and returns the new version.
    pub fn set(&mut self, key: String, value: T) -> (r: Result<u64, String>)
        requires
            old(self).wf(),
            old(self).version < u64::MAX,
        ensures
            final(self).wf(),
            final(self).data() == old(self).data().insert(key@, value),
            final(self).version == old(self).version + 1,
            r == Ok::<u64, String>(final(self).version),
            final(self).node_id == old(self).node_id,
            final(self).replication_factor == old(self).replication_factor,
            final(self).replication_mode == old(self).replication_mode,
    {
        let ghost k = key@;
        let replica_key = key.clone();
        let replica_value = value.clone();
        match self.find(&key) {
            Some(i) => {
                proof {
                    lemma_entries_map_update(self.local_data@, i as int, (key, value));
                }
                self.local_data.set(i, (key, value));
            },
            None => {
                proof {
                    lemma_entries_map_push(self.local_data@, (key, value));
                }
                self.local_data.push((key, value));
            },
        }
        self.version = self.version + 1;
        match self.replicate(replica_key, replica_value) {
            Ok(()) => Ok(self.version),
            Err(e) => Err(e),
        }
    }

    /// Hands the entry to the replicas. Replication is local in this
    /// build, so it always succeeds.
    fn replicate(&self, _key: String, _value: T) -> (r: Result<(), String>)
        ensures
            r is Ok,
    {
        Ok(())
    }

    /// The value stored under `key`, cloned.
    pub fn get(&self, key: &str) -> (r: Option<T>)
        requires
            self.wf(),
        ensures
            r is Some <==> self.data().contains_key(key@),
            r matches Some(v) ==> cloned(self.data()[key@], v),
    {
        let k = key.to_owned();
        match self.find(&k) {
            Some(i) => {
                proof {
                    lemma_entries_map_at(self.local_data@, i as int);
                }
                Some(self.local_data[i].1.clone())
            },
            None => None,
        }
    }

    /// Removes `key`, if present, and bumps the version.
    pub fn delete(&mut self, key: &str) -> (r: Result<(), String>)
        requires
            old(self).wf(),
        ensures
            final(self).wf(),
            final(self).data() == old(self).data().remove(key@),
            final(self).version == old(self).version.wrapping_add(1),
            r is Ok,
            final(self).node_id == old(self).node_id,
            final(self).replication_mode == old(self).replication_mode,
    {
        let k = key.to_owned();
        match self.find(&k) {
            Some(i) => {
                proof {
                    lemma_entries_map_remove(self.local_data@, i as int);
                }
                self.local_data.remove(i);
            },
            None => {
                assert(self.data().remove(key@) =~= self.data());
            },
        }
        self.version = self.version.wrapping_add(1);
        Ok(())
    }

    /// Every stored key, once each.
    pub fn keys(&self) -> (ks: Vec<String>)
        requires
            self.wf(),
        ensures
            ks@.len() == self.data().dom().len(),
            forall|k: Seq<char>| self.data().contains_key(k) <==> contains_str(ks@, k),
            forall|i: int, j: int| 0 <= i < j < ks@.len() ==> (#[trigger] ks@[i])@ != (#[trigger] ks@[j])@,
    {
        let mut ks: Vec<String> = Vec::new();
        let mut i: usize = 0;
        while i < self.local_data.len()
            invariant
                i <= self.local_data@.len(),
                ks@.len() == i,
                forall|j: int| 0 <= j < i ==> (#[trigger] ks@[j])@ == self.local_data@[j].0@,
            decreases self.local_data@.len() - i,
        {
            ks.push(self.local_data[i].0.clone());
            i = i + 1;
        }
        proof {
            self.lemma_dom_len();
            assert forall|k: Seq<char>| self.data().contains_key(k) <==> contains_str(ks@, k) by {
                if self.data().contains_key(k) {
                    let j = choose|j: int| 0 <= j < self.local_data@.len() && (#[trigger] self.local_data@[j]).0@ == k;
                    assert(ks@[j]@ == k);
                }
                if contains_str(ks@, k) {
                    let j = choose|j: int| 0 <= j < ks@.len() && (#[trigger] ks@[j])@ == k;
                    assert(self.local_data@[j].0@ == k);
                }
            }
            assert forall|a: int, b: int| 0 <= a < b < ks@.len() implies (#[trigger] ks@[a])@ != (#[trigger] ks@[b])@ by {
                assert(self.local_data@[a].0@ != self.local_data@[b].0@);
            }
        }
        ks
    }

    proof fn lemma_dom_len(&self)
        requires
            self.wf(),
        ensures
            self.data().dom().finite(),
            self.data().dom().len() == self.local_data@.len(),
        decreases self.local_data@.len(),
    {
        let s = self.local_data@;
        let keyset = s.map_values(|e: (String, T)| e.0@);
        assert(self.data().dom() =~= keyset.to_set()) by {
            assert forall|k: Seq<char>| self.data().dom().contains(k) <==> keyset.to_set().contains(k) by {
                if self.data().dom().contains(k) {
                    let j = choose|j: int| 0 <= j < s.len() && (#[trigger] s[j]).0@ == k;
                    assert(keyset[j] == k);
                }
                if keyset.to_set().contains(k) {
                    let j = choose|j: int| 0 <= j < keyset.len() && keyset[j] == k;
                    assert(s[j].0@ == k);
                }
            }
        }
        assert(keyset.no_duplicates()) by {
            assert forall|a: int, b: int| 0 <= a < keyset.len() && 0 <= b < keyset.len() && a != b implies keyset[a] != keyset[b] by {
                if a < b {
                    assert(s[a].0@ != s[b].0@);
                } else {
                    assert(s[b].0@ != s[a].0@);
                }
            }
        }
        keyset.unique_seq_to_set();
    }

    pub fn len(&self) -> (n: usize)
        requires
            self.wf(),
        ensures
            n == self.data().dom().len(),
    {
        proof {
            self.lemma_dom_len();
        }
        self.local_data.len()
    }

    /// Shard of `key` among `total_shards`: the 64-bit FNV-1a hash of its bytes,
    /// taken modulo the shard count.
    pub fn consistent_hash_shard(&self, key: &str, total_shards: usize) -> (shard: usize)
        requires
            total_shards > 0,
        ensures
            shard == (fnv1a(key.spec_bytes()) as usize) % total_shards,
            shard < total_shards,
    {
        let bytes = key.as_bytes();
        let mut hash: u64 = 2166136261;
        let mut i: usize = 0;
        while i < bytes.len()
            invariant
                i <= bytes@.len(),
                bytes@ == key.spec_bytes(),
                hash == fnv1a_from(2166136261, bytes@.subrange(0, i as int)),
            decreases bytes@.len() - i,
        {
            assert(bytes@.subrange(0, i + 1 as int).drop_last() =~= bytes@.subrange(0, i as int));
            hash = hash ^ (bytes[i] as u64);
            hash = hash.wrapping_mul(16777619);
            i = i + 1;
        }
        assert(bytes@.subrange(0, bytes@.len() as int) =~= bytes@);
        #[verifier::truncate]
        let h = hash as usize;
        h % total_shards
    }
}

/// FNV-1a over `s` starting from state `h`: each byte is xored in and the
/// state multiplied by the 32-bit FNV prime, with 64-bit wrap-around.
pub open spec fn fnv1a_from(h: u64, s: Seq<u8>) -> u64
    decreases s.len(),
{
    if s.len() == 0 {
        h
    } else {
        (fnv1a_from(h, s.drop_last()) ^ (s.last() as u64)).wrapping_mul(16777619)
    }
}

/// The hash `consistent_hash_shard` uses, from the 32-bit FNV offset basis.
pub open spec fn fnv1a(s: Seq<u8>) -> u64 {
    fnv1a_from(2166136261, s)
}

// ---------------------------------------------------------------------------
// Task scheduling
// ---------------------------------------------------------------------------

#[derive(Debug, Clone, Copy, PartialEq, Eq, Hash, PartialOrd, Ord, Structural)]
pub struct TaskId(pub u64);

impl TaskId {
    /// Display text: `Task(<id>)`.
    pub fn to_string(&self) -> (s: String)
        ensures
            s@ == "Task("@ + decimal(self.0 as nat) + ")"@,
    {
        let mut s = String::new();
        s.append("Task(");
        push_decimal(&mut s, self.0);
        s.append(")");
        s
    }
}

#[derive(Debug, Clone, Copy, PartialEq, Eq, Structural)]
pub enum TaskStatus {
    Pending,
    Assigned,
    Running,
    Completed,
    Failed,
}

impl TaskStatus {
    /// Display text: the variant's name.
    pub fn as_str(&self) -> (s: &'static str)
        ensures
            *self == TaskStatus::Pending ==> s@ == "Pending"@,
            *self == TaskStatus::Assigned ==> s@ == "Assigned"@,
            *self == TaskStatus::Running ==> s@ == "Running"@,
            *self == TaskStatus::Completed ==> s@ == "Completed"@,
            *self == TaskStatus::Failed ==> s@ == "Failed"@,
    {
        match self {
            TaskStatus::Pending => "Pending",
            TaskStatus::Assigned => "Assigned",
            TaskStatus::Running => "Running",
            TaskStatus::Completed => "Completed",
            TaskStatus::Failed => "Failed",
        }
    }
}

#[derive(Debug)]
pub struct Task {
    pub id: TaskId,
    pub task_type: String,
    pub priority: u32,
    pub requirements: TaskRequirements,
    pub status: TaskStatus,
    pub assigned_to: Option<RobotId>,
    pub created_at: Instant,
}

/// Two tasks agree in every field, strings compared by their characters.
pub open spec fn same_task(a: Task, b: Task) -> bool {
    &&& a.id == b.id
    &&& a.task_type@ == b.task_type@
    &&& a.priority == b.priority
    &&& same_requirements(a.requirements, b.requirements)
    &&& a.status == b.status
    &&& a.assigned_to == b.assigned_to
    &&& a.created_at == b.created_at
}

impl Clone for Task {
    fn clone(&self) -> (r: Self)
        ensures
            same_task(r, *self),
    {
        Task {
            id: self.id,
            task_type: self.task_type.clone(),
            priority: self.priority,
            requirements: self.requirements.clone(),
            status: self.status,
            assigned_to: self.assigned_to,
            created_at: self.created_at,
        }
    }
}

/// Why a scheduling request was refused.
#[derive(Debug, Clone, Copy, PartialEq, Eq, Structural)]
pub enum SchedulerError {
    TaskNotFound { task: TaskId },
    NotPending { task: TaskId, status: TaskStatus },
    NotAssignedHere { task: TaskId, assigned_to: Option<RobotId> },
}

#[derive(Debug, Clone, Copy, PartialEq, Eq, Structural)]
pub struct TaskStats {
    pub total: usize,
    pub pending: usize,
    pub assigned: usize,
    pub running: usize,
    pub completed: usize,
    pub failed: usize,
}

/// Display text of task counts.
pub open spec fn task_stats_text(st: TaskStats) -> Seq<char> {
    "total:"@ + decimal(st.total as nat) + " pending:"@ + decimal(st.pending as nat) + " assigned:"@
        + decimal(st.assigned as nat) + " running:"@ + decimal(st.running as nat) + " completed:"@
        + decimal(st.completed as nat) + " failed:"@ + decimal(st.failed as nat)
}

impl TaskStats {
    /// Display text: `total:<n> pending:<n> assigned:<n> running:<n> completed:<n> failed:<n>`.
    pub fn to_string(&self) -> (s: String)
        ensures
            s@ == task_stats_text(*self),
    {
        let mut s = String::new();
        s.append("total:");
        push_decimal(&mut s, self.total as u64);
        s.append(" pending:");
        push_decimal(&mut s, self.pending as u64);
        s.append(" assigned:");
        push_decimal(&mut s, self.assigned as u64);
        s.append(" running:");
        push_decimal(&mut s, self.running as u64);
        s.append(" completed:");
        push_decimal(&mut s, self.completed as u64);
        s.append(" failed:");
        push_decimal(&mut s, self.failed as u64);
        s
    }
}

impl Default for TaskStats {
    fn default() -> (s: Self)
        ensures
            s == (TaskStats { total: 0, pending: 0, assigned: 0, running: 0, completed: 0, failed: 0 }),
    {
        TaskStats { total: 0, pending: 0, assigned: 0, running: 0, completed: 0, failed: 0 }
    }
}

/// Number of tasks of `s` with status `st`.
pub open spec fn count_status(s: Seq<Task>, st: TaskStatus) -> nat
    decreases s.len(),
{
    if s.len() == 0 {
        0
    } else {
        count_status(s.drop_last(), st) + if s.last().status == st { 1nat } else { 0nat }
    }
}

proof fn lemma_count_status_bound(s: Seq<Task>, st: TaskStatus)
    ensures
        count_status(s, st) <= s.len(),
    decreases s.len(),
{
    if s.len() > 0 {
        lemma_count_status_bound(s.drop_last(), st);
    }
}

/// Ids of the pending tasks of `s`, in order.
pub open spec fn pending_ids(s: Seq<Task>) -> Seq<TaskId>
    decreases s.len(),
{
    if s.len() == 0 {
        Seq::empty()
    } else if s.last().status == TaskStatus::Pending {
        pending_ids(s.drop_last()).push(s.last().id)
    } else {
        pending_ids(s.drop_last())
    }
}

/// Ids of the tasks of `s`, in order.
pub open spec fn task_ids(s: Seq<Task>) -> Seq<TaskId> {
    s.map_values(|t: Task| t.id)
}

/// Simulated execution time of a task type, in milliseconds.
pub open spec fn planned_execution_ms(task_type: Seq<char>) -> u64 {
    if task_type == "object_detection"@ {
        150
    } else if task_type == "path_planning"@ {
        80
    } else if task_type == "sensor_fusion"@ {
        200
    } else {
        100
    }
}

/// Capability-based scheduler of one node. Task ids are handed out in order,
/// so the task with id `i` is `tasks[i]`.
pub struct TaskScheduler {
    pub tasks: Vec<Task>,
    pub node_id: RobotId,
    pub capabilities: NodeCapabilities,
    pub task_counter: u64,
}

impl TaskScheduler {
    pub open spec fn wf(&self) -> bool {
        &&& self.tasks@.len() == self.task_counter
        &&& forall|i: int| 0 <= i < self.tasks@.len() ==> (#[trigger] self.tasks@[i]).id == TaskId(i as u64)
    }

    pub fn new(node_id: RobotId, capabilities: NodeCapabilities) -> (s: Self)
        ensures
            s.wf(),
            s.tasks@.len() == 0,
            s.node_id == node_id,
            s.capabilities == capabilities,
            s.task_counter == 0,
    {
        TaskScheduler { tasks: Vec::new(), node_id, capabilities, task_counter: 0 }
    }

    /// Records a new pending, unassigned task and returns its id.
    pub fn submit_task(&mut self, task_type: String, priority: u32, requirements: TaskRequirements) -> (id: TaskId)
        requires
            old(self).wf(),
            old(self).task_counter < u64::MAX,
        ensures
            final(self).wf(),
            id == TaskId(old(self).task_counter),
            final(self).task_counter == old(self).task_counter + 1,
            final(self).tasks@.len() == old(self).tasks@.len() + 1,
            final(self).tasks@.drop_last() == old(self).tasks@,
            ({
                let t = final(self).tasks@.last();
                &&& t.id == id
                &&& t.task_type == task_type
                &&& t.priority == priority
                &&& t.requirements == requirements
                &&& t.status == TaskStatus::Pending
                &&& t.assigned_to is None
            }),
            final(self).node_id == old(self).node_id,
            final(self).capabilities == old(self).capabilities,
    {
        let task_id = TaskId(self.task_counter);
        self.task_counter = self.task_counter + 1;
        let task = Task {
            id: task_id,
            task_type,
            priority,
            requirements,
            status: TaskStatus::Pending,
            assigned_to: None,
            created_at: instant_now(),
        };
        self.tasks.push(task);
        assert(self.tasks@.drop_last() =~= old(self).tasks@);
        task_id
    }

    pub fn can_execute(&self, requirements: &TaskRequirements) -> (b: bool)
        ensures
            b == capabilities_match(self.capabilities, *requirements),
    {
        self.capabilities.matches(requirements)
    }

    fn task_index(&self, task_id: TaskId) -> (r: Option<usize>)
        requires
            self.wf(),
        ensures
            r is None <==> task_id.0 >= self.tasks@.len(),
            r matches Some(i) ==> i == task_id.0 && i < self.tasks@.len(),
    {
        if task_id.0 < self.tasks.len() as u64 {
            Some(task_id.0 as usize)
        } else {
            None
        }
    }

    /// Assigns a pending task to `node_id`.
    pub fn assign_task(&mut self, task_id: TaskId, node_id: RobotId) -> (r: Result<(), SchedulerError>)
        requires
            old(self).wf(),
        ensures
            final(self).wf(),
            task_id.0 >= old(self).tasks@.len() ==> r == Err::<(), SchedulerError>(SchedulerError::TaskNotFound { task: task_id })
                && final(self).tasks@ == old(self).tasks@,
            task_id.0 < old(self).tasks@.len() ==> ({
                let t = old(self).tasks@[task_id.0 as int];
                if t.status != TaskStatus::Pending {
                    r == Err::<(), SchedulerError>(SchedulerError::NotPending { task: task_id, status: t.status })
                        && final(self).tasks@ == old(self).tasks@
                } else {
                    r is Ok && final(self).tasks@ == old(self).tasks@.update(task_id.0 as int,
                        Task { status: TaskStatus::Assigned, assigned_to: Some(node_id), ..t })
                }
            }),
            final(self).task_counter == old(self).task_counter,
            final(self).node_id == old(self).node_id,
            final(self).capabilities == old(self).capabilities,
    {
        let i = match self.task_index(task_id) {
            Some(i) => i,
            None => {
                return Err(SchedulerError::TaskNotFound { task: task_id });
            },
        };
        let status = self.tasks[i].status;
        if status != TaskStatus::Pending {
            return Err(SchedulerError::NotPending { task: task_id, status });
        }
        let ghost before = self.tasks@;
        self.tasks[i].status = TaskStatus::Assigned;
        self.tasks[i].assigned_to = Some(node_id);
        assert(self.tasks@ =~= before.update(i as int, Task { status: TaskStatus::Assigned, assigned_to: Some(node_id), ..before[i as int] }));
        Ok(())
    }

    /// Starts executing a task assigned to this node: marks it running and
    /// returns how long its type takes to run.
    pub fn begin_execution(&mut self, task_id: TaskId) -> (r: Result<Duration, SchedulerError>)
        requires
            old(self).wf(),
        ensures
            final(self).wf(),
            task_id.0 >= old(self).tasks@.len() ==> r == Err::<Duration, SchedulerError>(SchedulerError::TaskNotFound { task: task_id })
                && final(self).tasks@ == old(self).tasks@,
            task_id.0 < old(self).tasks@.len() ==> ({
                let t = old(self).tasks@[task_id.0 as int];
                if t.assigned_to != Some(old(self).node_id) {
                    r == Err::<Duration, SchedulerError>(SchedulerError::NotAssignedHere { task: task_id, assigned_to: t.assigned_to })
                        && final(self).tasks@ == old(self).tasks@
                } else {
                    &&& r matches Ok(d) && duration_as_nanos_spec(d) == planned_execution_ms(t.task_type@) * 1_000_000
                    &&& final(self).tasks@ == old(self).tasks@.update(task_id.0 as int, Task { status: TaskStatus::Running, ..t })
                }
            }),
            final(self).task_counter == old(self).task_counter,
            final(self).node_id == old(self).node_id,
            final(self).capabilities == old(self).capabilities,
    {
        let i = match self.task_index(task_id) {
            Some(i) => i,
            None => {
                return Err(SchedulerError::TaskNotFound { task: task_id });
            },
        };
        let assigned = self.tasks[i].assigned_to;
        if assigned != Some(self.node_id) {
            return Err(SchedulerError::NotAssignedHere { task: task_id, assigned_to: assigned });
        }
        let ghost before = self.tasks@;
        self.tasks[i].status = TaskStatus::Running;
        assert(self.tasks@ =~= before.update(i as int, Task { status: TaskStatus::Running, ..before[i as int] }));
        let ms = execution_ms(&self.tasks[i].task_type);
        Ok(duration_from_millis(ms))
    }

    /// Marks a known task completed.
    pub fn finish_execution(&mut self, task_id: TaskId)
        requires
            old(self).wf(),
            task_id.0 < old(self).tasks@.len(),
        ensures
            final(self).wf(),
            final(self).tasks@ == old(self).tasks@.update(task_id.0 as int,
                Task { status: TaskStatus::Completed, ..old(self).tasks@[task_id.0 as int] }),
            final(self).task_counter == old(self).task_counter,
            final(self).node_id == old(self).node_id,
            final(self).capabilities == old(self).capabilities,
    {
        let n = self.tasks.len();
        let i = task_id.0 as usize;
        assert(i as int == task_id.0 as int);
        let ghost before = self.tasks@;
        self.tasks[i].status = TaskStatus::Completed;
        assert(self.tasks@ =~= before.update(i as int, Task { status: TaskStatus::Completed, ..before[i as int] }));
    }

    /// The pending tasks, highest priority first; tasks of equal priority keep
    /// the order of their ids.
    pub fn pending_tasks(&self) -> (r: Vec<Task>)
        requires
            self.wf(),
        ensures
            forall|i: int, j: int| 0 <= i < j < r@.len() ==> (#[trigger] r@[i]).priority >= (#[trigger] r@[j]).priority,
            task_ids(r@).to_multiset() == pending_ids(self.tasks@).to_multiset(),
            forall|k: int| 0 <= k < r@.len() ==> (#[trigger] r@[k]).id.0 < self.tasks@.len()
                && same_task(r@[k], self.tasks@[r@[k].id.0 as int]),
    {
        let mut r: Vec<Task> = Vec::new();
        let mut i: usize = 0;
        proof {
            assert(self.tasks@.take(0) =~= Seq::<Task>::empty());
            assert(task_ids(r@) =~= Seq::<TaskId>::empty());
        }
        while i < self.tasks.len()
            invariant
                self.wf(),
                i <= self.tasks@.len(),
                forall|a: int, b: int| 0 <= a < b < r@.len() ==> (#[trigger] r@[a]).priority >= (#[trigger] r@[b]).priority,
                task_ids(r@).to_multiset() == pending_ids(self.tasks@.take(i as int)).to_multiset(),
                forall|k: int| 0 <= k < r@.len() ==> (#[trigger] r@[k]).id.0 < self.tasks@.len()
                    && same_task(r@[k], self.tasks@[r@[k].id.0 as int]),
            decreases self.tasks@.len() - i,
        {
            let ghost prefix = self.tasks@.take(i + 1 as int);
            assert(prefix.drop_last() =~= self.tasks@.take(i as int));
            assert(prefix.last() == self.tasks@[i as int]);
            if self.tasks[i].status == TaskStatus::Pending {
                let t = self.tasks[i].clone();
                let prio = t.priority;
                let mut p: usize = 0;
                while p < r.len() && r[p].priority >= prio
                    invariant
                        p <= r@.len(),
                        forall|q: int| 0 <= q < p ==> (#[trigger] r@[q]).priority >= prio,
                    decreases r@.len() - p,
                {
                    p = p + 1;
                }
                let ghost before = r@;
                proof {
                    assert(task_ids(before.insert(p as int, t)) =~= task_ids(before).insert(p as int, t.id));
                    vstd::seq_lib::to_multiset_insert(task_ids(before), p as int, t.id);
                    vstd::seq_lib::to_multiset_build(pending_ids(self.tasks@.take(i as int)), t.id);
                }
                r.insert(p, t);
                proof {
                    assert forall|a: int, b: int| 0 <= a < b < r@.len() implies (#[trigger] r@[a]).priority >= (#[trigger] r@[b]).priority by {
                        if b < p {
                            assert(r@[a] == before[a] && r@[b] == before[b]);
                        } else if b == p {
                            assert(r@[a] == before[a]);
                        } else if a < p {
                            assert(r@[a] == before[a] && r@[b] == before[b - 1]);
                        } else if a == p {
                            assert(r@[b] == before[b - 1]);
                            assert(before[p as int].priority < prio);
                            if b - 1 > p {
                                assert(before[p as int].priority >= before[b - 1].priority);
                            }
                        } else {
                            assert(r@[a] == before[a - 1] && r@[b] == before[b - 1]);
                        }
                    }
                    assert forall|k: int| 0 <= k < r@.len() implies (#[trigger] r@[k]).id.0 < self.tasks@.len()
                        && same_task(r@[k], self.tasks@[r@[k].id.0 as int]) by {
                        if k < p {
                            assert(r@[k] == before[k]);
                        } else if k > p {
                            assert(r@[k] == before[k - 1]);
                        }
                    }
                }
            }
            i = i + 1;
        }
        assert(self.tasks@.take(self.tasks@.len() as int) =~= self.tasks@);
        r
    }

    /// Number of tasks in each status, and in all.
    pub fn task_stats(&self) -> (st: TaskStats)
        ensures
            st.total == self.tasks@.len(),
            st.pending == count_status(self.tasks@, TaskStatus::Pending),
            st.assigned == count_status(self.tasks@, TaskStatus::Assigned),
            st.running == count_status(self.tasks@, TaskStatus::Running),
            st.completed == count_status(self.tasks@, TaskStatus::Completed),
            st.failed == count_status(self.tasks@, TaskStatus::Failed),
    {
        let mut stats = TaskStats::default();
        let mut i: usize = 0;
        while i < self.tasks.len()
            invariant
                i <= self.tasks@.len(),
                stats.total == 0,
                stats.pending == count_status(self.tasks@.take(i as int), TaskStatus::Pending),
                stats.assigned == count_status(self.tasks@.take(i as int), TaskStatus::Assigned),
                stats.running == count_status(self.tasks@.take(i as int), TaskStatus::Running),
                stats.completed == count_status(self.tasks@.take(i as int), TaskStatus::Completed),
                stats.failed == count_status(self.tasks@.take(i as int), TaskStatus::Failed),
            decreases self.tasks@.len() - i,
        {
            let ghost prefix = self.tasks@.take(i + 1 as int);
            assert(prefix.drop_last() =~= self.tasks@.take(i as int));
            proof {
                lemma_count_status_bound(self.tasks@.take(i as int), TaskStatus::Pending);
                lemma_count_status_bound(self.tasks@.take(i as int), TaskStatus::Assigned);
                lemma_count_status_bound(self.tasks@.take(i as int), TaskStatus::Running);
                lemma_count_status_bound(self.tasks@.take(i as int), TaskStatus::Completed);
                lemma_count_status_bound(self.tasks@.take(i as int), TaskStatus::Failed);
            }
            match self.tasks[i].status {
                TaskStatus::Pending => stats.pending = stats.pending + 1,
                TaskStatus::Assigned => stats.assigned = stats.assigned + 1,
                TaskStatus::Running => stats.running = stats.running + 1,
                TaskStatus::Completed => stats.completed = stats.completed + 1,
                TaskStatus::Failed => stats.failed = stats.failed + 1,
            }
            i = i + 1;
        }
        assert(self.tasks@.take(self.tasks@.len() as int) =~= self.tasks@);
        stats.total = self.tasks.len();
        stats
    }

    pub fn count(&self) -> (n: usize)
        ensures
            n == self.tasks@.len(),
    {
        self.tasks.len()
    }
}

fn execution_ms(task_type: &String) -> (ms: u64)
    ensures
        ms == planned_execution_ms(task_type@),
{
    if *task_type == "object_detection".to_owned() {
        150
    } else if *task_type == "path_planning".to_owned() {
        80
    } else if *task_type == "sensor_fusion".to_owned() {
        200
    } else {
        100
    }
}

/// Summary of a fleet: its robots, leader, term and tasks.
#[derive(Debug, Clone)]
pub struct FleetStatus {
    pub fleet_id: String,
    pub total_robots: usize,
    pub leader: Option<RobotId>,
    pub term: u64,
    pub tasks: TaskStats,
}

/// How a leader id prints in the fleet summary: `Some(<id>)` or `None`.
pub open spec fn leader_text(l: Option<RobotId>) -> Seq<char> {
    match l {
        Some(id) => "Some("@ + decimal(id.0 as nat) + ")"@,
        None => "None"@,
    }
}

impl FleetStatus {
    /// Display text: `Fleet '<id>' robots:<n> leader:<Some(id)|None> term:<n> tasks:[<counts>]`.
    pub fn to_string(&self) -> (s: String)
        ensures
            s@ == "Fleet '"@ + self.fleet_id@ + "' robots:"@ + decimal(self.total_robots as nat) + " leader:"@
                + leader_text(self.leader) + " term:"@ + decimal(self.term as nat) + " tasks:["@
                + task_stats_text(self.tasks) + "]"@,
    {
        let mut s = String::new();
        s.append("Fleet '");
        s.append(self.fleet_id.as_str());
        s.append("' robots:");
        push_decimal(&mut s, self.total_robots as u64);
        s.append(" leader:");
        match self.leader {
            Some(id) => {
                s.append("Some(");
                push_decimal(&mut s, id.0);
                s.append(")");
            },
            None => {
                s.append("None");
            },
        }
        s.append(" term:");
        push_decimal(&mut s, self.term);
        s.append(" tasks:[");
        let counts = self.tasks.to_string();
        s.append(counts.as_str());
        s.append("]");
        s
    }
}


// ---------------------------------------------------------------------------
// Fleet coordination
// ---------------------------------------------------------------------------

/// Some robot of `robots` meets `req`.
pub open spec fn any_capable(robots: Seq<NodeInfo>, req: TaskRequirements) -> bool {
    exists|i: int| 0 <= i < robots.len() && capabilities_match((#[trigger] robots[i]).capabilities, req)
}

/// `id` names a robot that meets `req` and has at least as many CPU cores as
/// every robot that meets it.
pub open spec fn best_capable(robots: Seq<NodeInfo>, req: TaskRequirements, id: RobotId) -> bool {
    exists|i: int| #![trigger robots[i]]
        0 <= i < robots.len() && robots[i].id == id && capabilities_match(robots[i].capabilities, req)
        && forall|j: int| 0 <= j < robots.len() && capabilities_match((#[trigger] robots[j]).capabilities, req)
            ==> robots[j].capabilities.cpu_cores <= robots[i].capabilities.cpu_cores
}

/// What distribution does to one task: a pending task goes to the most capable
/// robot that meets its requirements; failing that, to the coordinator itself
/// when it meets them; otherwise it stays pending. Other tasks are untouched.
pub open spec fn task_distributed(
    before: Task,
    after: Task,
    robots: Seq<NodeInfo>,
    own_caps: NodeCapabilities,
    own_id: RobotId,
) -> bool {
    if before.status != TaskStatus::Pending {
        after == before
    } else if any_capable(robots, before.requirements) {
        &&& after == (Task { status: TaskStatus::Assigned, assigned_to: after.assigned_to, ..before })
        &&& after.assigned_to matches Some(id) && best_capable(robots, before.requirements, id)
    } else if capabilities_match(own_caps, before.requirements) {
        after == (Task { status: TaskStatus::Assigned, assigned_to: Some(own_id), ..before })
    } else {
        after == before
    }
}

/// Distribution applied to every task of a table.
pub open spec fn tasks_distributed(
    before: Seq<Task>,
    after: Seq<Task>,
    robots: Seq<NodeInfo>,
    own_caps: NodeCapabilities,
    own_id: RobotId,
) -> bool {
    &&& after.len() == before.len()
    &&& forall|k: int| 0 <= k < before.len() ==> #[trigger] task_distributed(before[k], after[k], robots, own_caps, own_id)
}

/// The robot to run a task with requirements `req`: one with the most CPU
/// cores among those that meet them (the first registered, among equals).
fn select_robot(robots: &Vec<NodeInfo>, req: &TaskRequirements) -> (r: Option<RobotId>)
    ensures
        r is None <==> !any_capable(robots@, *req),
        r matches Some(id) ==> best_capable(robots@, *req, id),
{
    let mut best: Option<usize> = None;
    let mut i: usize = 0;
    while i < robots.len()
        invariant
            i <= robots@.len(),
            best is None <==> !exists|j: int| 0 <= j < i && capabilities_match((#[trigger] robots@[j]).capabilities, *req),
            best matches Some(b) ==> b < i && capabilities_match(robots@[b as int].capabilities, *req)
                && forall|j: int| 0 <= j < i && capabilities_match((#[trigger] robots@[j]).capabilities, *req)
                    ==> robots@[j].capabilities.cpu_cores <= robots@[b as int].capabilities.cpu_cores,
        decreases robots@.len() - i,
    {
        if robots[i].capabilities.matches(req) {
            match best {
                None => {
                    best = Some(i);
                },
                Some(b) => {
                    if robots[i].capabilities.cpu_cores > robots[b].capabilities.cpu_cores {
                        best = Some(i);
                    }
                },
            }
        }
        i = i + 1;
    }
    match best {
        None => None,
        Some(b) => {
            assert(robots@[b as int].id == robots@[b as int].id);
            Some(robots[b].id)
        },
    }
}

/// Runs a fleet: elects a leader among the registered robots and, while
/// leading, hands pending tasks to capable robots.
pub struct FleetCoordinator {
    pub fleet_id: String,
    pub leader_election: LeaderElection,
    pub task_scheduler: TaskScheduler,
    pub distributed_state: DistributedState<String>,
    pub robots: Vec<NodeInfo>,
}

impl FleetCoordinator {
    /// Robots have distinct ids, and the parts are well formed.
    pub open spec fn wf(&self) -> bool {
        &&& peer_ids_distinct(self.robots@)
        &&& self.leader_election.wf()
        &&& self.task_scheduler.wf()
        &&& self.distributed_state.wf()
    }

    /// A coordinator for `node_id` with the given hardware: no robots, no
    /// tasks, no state, replication factor 3.
    pub fn new(fleet_id: String, node_id: RobotId, capabilities: NodeCapabilities) -> (f: Self)
        ensures
            f.wf(),
            f.fleet_id@ == fleet_id@,
            f.robots@.len() == 0,
            f.leader_election.node_id == node_id,
            f.leader_election.role == NodeRole::Follower,
            f.leader_election.current_term == 0,
            f.leader_election.peers@.len() == 0,
            f.task_scheduler.node_id == node_id,
            f.task_scheduler.capabilities == capabilities,
            f.task_scheduler.tasks@.len() == 0,
            f.distributed_state.data() == Map::<Seq<char>, String>::empty(),
            f.distributed_state.replication_factor == 3,
    {
        FleetCoordinator {
            fleet_id,
            leader_election: LeaderElection::new(node_id),
            task_scheduler: TaskScheduler::new(node_id, capabilities),
            distributed_state: DistributedState::new(node_id, 3),
            robots: Vec::new(),
        }
    }

    /// Registers a robot (replacing one with the same id) and makes it an
    /// election peer.
    pub fn register_robot(&mut self, info: NodeInfo)
        requires
            old(self).wf(),
        ensures
            final(self).wf(),
            exists|i: int| 0 <= i < final(self).robots@.len() && final(self).robots@[i] == info,
            forall|id: RobotId| id != info.id ==> (has_peer(old(self).robots@, id) <==> #[trigger] has_peer(final(self).robots@, id)),
            final(self).robots@.len() == old(self).robots@.len() + if has_peer(old(self).robots@, info.id) { 0int } else { 1int },
            has_peer(final(self).leader_election.peers@, info.id),
            forall|id: RobotId| id != info.id ==> (has_peer(old(self).leader_election.peers@, id)
                <==> #[trigger] has_peer(final(self).leader_election.peers@, id)),
            final(self).leader_election.role == old(self).leader_election.role,
            final(self).leader_election.current_term == old(self).leader_election.current_term,
            final(self).leader_election.node_id == old(self).leader_election.node_id,
            final(self).task_scheduler == old(self).task_scheduler,
            final(self).distributed_state == old(self).distributed_state,
            final(self).fleet_id == old(self).fleet_id,
    {
        let peer = info.clone();
        let ghost info_v = info;
        upsert_node(&mut self.robots, info);
        let ghost j = choose|i: int| 0 <= i < self.robots@.len() && self.robots@[i] == info_v;
        self.leader_election.add_peer(peer);
        proof {
            assert(self.robots@[j] == info_v);
            let i = choose|i: int| 0 <= i < self.leader_election.peers@.len() && self.leader_election.peers@[i] == peer;
            assert(self.leader_election.peers@[i].id == peer.id);
        }
    }

    /// Hands out the pending tasks (see `task_distributed`). Assignment never
    /// fails here, since every task handled is pending.
    fn distribute_tasks(&mut self) -> (r: Result<(), SchedulerError>)
        requires
            old(self).wf(),
        ensures
            final(self).wf(),
            r is Ok,
            tasks_distributed(old(self).task_scheduler.tasks@, final(self).task_scheduler.tasks@,
                old(self).robots@, old(self).task_scheduler.capabilities, old(self).leader_election.node_id),
            final(self).task_scheduler.node_id == old(self).task_scheduler.node_id,
            final(self).task_scheduler.capabilities == old(self).task_scheduler.capabilities,
            final(self).task_scheduler.task_counter == old(self).task_scheduler.task_counter,
            final(self).robots == old(self).robots,
            final(self).leader_election == old(self).leader_election,
            final(self).distributed_state == old(self).distributed_state,
            final(self).fleet_id == old(self).fleet_id,
    {
        let n = self.task_scheduler.tasks.len();
        let ghost before = self.task_scheduler.tasks@;
        let own = self.leader_election.node_id;
        let mut i: usize = 0;
        while i < n
            invariant
                i <= n,
                n == before.len(),
                self.wf(),
                self.task_scheduler.tasks@.len() == n,
                self.robots == old(self).robots,
                self.leader_election == old(self).leader_election,
                self.distributed_state == old(self).distributed_state,
                self.fleet_id == old(self).fleet_id,
                own == old(self).leader_election.node_id,
                self.task_scheduler.node_id == old(self).task_scheduler.node_id,
                self.task_scheduler.capabilities == old(self).task_scheduler.capabilities,
                self.task_scheduler.task_counter == old(self).task_scheduler.task_counter,
                before == old(self).task_scheduler.tasks@,
                forall|k: int| 0 <= k < i ==> #[trigger] task_distributed(before[k], self.task_scheduler.tasks@[k],
                    self.robots@, self.task_scheduler.capabilities, own),
                forall|k: int| i <= k < n ==> self.task_scheduler.tasks@[k] == before[k],
            decreases n - i,
        {
            if self.task_scheduler.tasks[i].status == TaskStatus::Pending {
                let choice = select_robot(&self.robots, &self.task_scheduler.tasks[i].requirements);
                let target = match choice {
                    Some(id) => Some(id),
                    None => {
                        if self.task_scheduler.can_execute(&self.task_scheduler.tasks[i].requirements) {
                            Some(own)
                        } else {
                            None
                        }
                    },
                };
                match target {
                    Some(robot) => {
                        let ghost cur = self.task_scheduler.tasks@;
                        assert(self.task_scheduler.tasks@[i as int].id == TaskId(i as u64));
                        match self.task_scheduler.assign_task(TaskId(i as u64), robot) {
                            Ok(()) => {},
                            Err(e) => {
                                return Err(e);
                            },
                        }
                        assert forall|k: int| 0 <= k < i implies #[trigger] task_distributed(before[k], self.task_scheduler.tasks@[k],
                            self.robots@, self.task_scheduler.capabilities, own) by {
                            assert(self.task_scheduler.tasks@[k] == cur[k]);
                        }
                        assert forall|k: int| i < k < n implies self.task_scheduler.tasks@[k] == before[k] by {
                            assert(self.task_scheduler.tasks@[k] == cur[k]);
                        }
                        assert(task_distributed(before[i as int], self.task_scheduler.tasks@[i as int],
                            self.robots@, self.task_scheduler.capabilities, own));
                    },
                    None => {
                        assert(task_distributed(before[i as int], self.task_scheduler.tasks@[i as int],
                            self.robots@, self.task_scheduler.capabilities, own));
                    },
                }
            } else {
                assert(task_distributed(before[i as int], self.task_scheduler.tasks@[i as int],
                    self.robots@, self.task_scheduler.capabilities, own));
            }
            i = i + 1;
        }
        Ok(())
    }

    /// One round of coordination: a follower whose leader timed out starts an
    /// election; a leader (including one just elected) sends its heartbeat and
    /// distributes the pending tasks. Whether the leader timed out depends on
    /// the clock.
    pub fn coordinate(&mut self) -> (r: Result<(), SchedulerError>)
        requires
            old(self).wf(),
            old(self).leader_election.current_term < u64::MAX,
            old(self).leader_election.peers@.len() < usize::MAX,
        ensures
            final(self).wf(),
            r is Ok,
            old(self).leader_election.role == NodeRole::Leader ==> final(self).leader_election.role == NodeRole::Leader
                && final(self).leader_election.current_term == old(self).leader_election.current_term,
            final(self).leader_election.role == NodeRole::Leader ==> tasks_distributed(old(self).task_scheduler.tasks@,
                final(self).task_scheduler.tasks@, old(self).robots@, old(self).task_scheduler.capabilities,
                old(self).leader_election.node_id),
            final(self).leader_election.role != NodeRole::Leader ==> final(self).task_scheduler == old(self).task_scheduler,
            final(self).leader_election.current_term == old(self).leader_election.current_term
                || final(self).leader_election.current_term == old(self).leader_election.current_term + 1,
            final(self).leader_election.node_id == old(self).leader_election.node_id,
            final(self).leader_election.peers == old(self).leader_election.peers,
            final(self).robots == old(self).robots,
            final(self).distributed_state == old(self).distributed_state,
            final(self).fleet_id == old(self).fleet_id,
    {
        let timed_out = self.leader_election.check_leader_timeout();
        self.coordinate_step(timed_out)
    }

    /// One round of coordination once it is known whether the leader's
    /// heartbeat has timed out: a timeout starts an election; a node that is
    /// then leader renews its heartbeat and distributes the pending tasks, and
    /// any other node leaves the tasks alone.
    pub fn coordinate_step(&mut self, timed_out: bool) -> (r: Result<(), SchedulerError>)
        requires
            old(self).wf(),
            old(self).leader_election.current_term < u64::MAX,
            old(self).leader_election.peers@.len() < usize::MAX,
        ensures
            final(self).wf(),
            r is Ok,
            timed_out ==> {
                &&& final(self).leader_election.current_term == old(self).leader_election.current_term + 1
                &&& final(self).leader_election.votes_received@.to_set() == granted_ids(
                    old(self).leader_election.peers@,
                    old(self).leader_election.vote_seed,
                ).insert(old(self).leader_election.node_id)
                &&& final(self).leader_election.vote_seed == lcg_iter(old(self).leader_election.vote_seed,
                    old(self).leader_election.peers@.len())
                &&& (final(self).leader_election.role == NodeRole::Leader) == (
                    final(self).leader_election.votes_received@.len() >= (old(self).leader_election.peers@.len() + 1) / 2 + 1)
                &&& final(self).leader_election.role == NodeRole::Leader ==> final(self).leader_election.leader_id == Some(
                    old(self).leader_election.node_id)
                &&& final(self).leader_election.role != NodeRole::Leader ==> final(self).leader_election.role == NodeRole::Follower
                    && final(self).leader_election.leader_id == old(self).leader_election.leader_id
            },
            !timed_out ==> {
                &&& final(self).leader_election.current_term == old(self).leader_election.current_term
                &&& final(self).leader_election.role == old(self).leader_election.role
                &&& final(self).leader_election.votes_received == old(self).leader_election.votes_received
                &&& final(self).leader_election.vote_seed == old(self).leader_election.vote_seed
                &&& final(self).leader_election.leader_id == old(self).leader_election.leader_id
            },
            !timed_out && old(self).leader_election.role != NodeRole::Leader ==> final(self).leader_election
                == old(self).leader_election,
            final(self).leader_election.role == NodeRole::Leader ==> tasks_distributed(old(self).task_scheduler.tasks@,
                final(self).task_scheduler.tasks@, old(self).robots@, old(self).task_scheduler.capabilities,
                old(self).leader_election.node_id),
            final(self).leader_election.role != NodeRole::Leader ==> final(self).task_scheduler == old(self).task_scheduler,
            final(self).leader_election.node_id == old(self).leader_election.node_id,
            final(self).leader_election.peers == old(self).leader_election.peers,
            final(self).leader_election.election_timeout == old(self).leader_election.election_timeout,
            final(self).leader_election.heartbeat_interval == old(self).leader_election.heartbeat_interval,
            final(self).robots == old(self).robots,
            final(self).distributed_state == old(self).distributed_state,
            final(self).fleet_id == old(self).fleet_id,
    {
        if timed_out {
            self.leader_election.start_election();
        }
        if self.leader_election.is_leader() {
            self.leader_election.send_heartbeat();
            match self.distribute_tasks() {
                Ok(()) => {},
                Err(e) => {
                    return Err(e);
                },
            }
        }
        Ok(())
    }

    /// Robots, leader, term and task counts; the coordinator counts itself.
    pub fn get_fleet_status(&self) -> (st: FleetStatus)
        requires
            self.robots@.len() < usize::MAX,
        ensures
            st.fleet_id@ == self.fleet_id@,
            st.total_robots == self.robots@.len() + 1,
            st.leader == self.leader_election.leader_id,
            st.term == self.leader_election.current_term,
            st.tasks.total == self.task_scheduler.tasks@.len(),
            st.tasks.pending == count_status(self.task_scheduler.tasks@, TaskStatus::Pending),
            st.tasks.assigned == count_status(self.task_scheduler.tasks@, TaskStatus::Assigned),
            st.tasks.running == count_status(self.task_scheduler.tasks@, TaskStatus::Running),
            st.tasks.completed == count_status(self.task_scheduler.tasks@, TaskStatus::Completed),
            st.tasks.failed == count_status(self.task_scheduler.tasks@, TaskStatus::Failed),
    {
        FleetStatus {
            fleet_id: self.fleet_id.clone(),
            total_robots: self.robots.len() + 1,
            leader: self.leader_election.get_leader(),
            term: self.leader_election.term(),
            tasks: self.task_scheduler.task_stats(),
        }
    }

    /// Stores a fleet-wide parameter; returns the new state version.
    pub fn set_fleet_parameter(&mut self, key: String, value: String) -> (r: Result<u64, String>)
        requires
            old(self).wf(),
            old(self).distributed_state.version < u64::MAX,
        ensures
            final(self).wf(),
            final(self).distributed_state.data() == old(self).distributed_state.data().insert(key@, value),
            final(self).distributed_state.version == old(self).distributed_state.version + 1,
            r == Ok::<u64, String>(final(self).distributed_state.version),
            final(self).robots == old(self).robots,
            final(self).leader_election == old(self).leader_election,
            final(self).task_scheduler == old(self).task_scheduler,
    {
        self.distributed_state.set(key, value)
    }

    /// A fleet-wide parameter, if set.
    pub fn get_fleet_parameter(&self, key: &str) -> (r: Option<String>)
        requires
            self.wf(),
        ensures
            r is Some <==> self.distributed_state.data().contains_key(key@),
            r matches Some(v) ==> v@ == self.distributed_state.data()[key@]@,
    {
        self.distributed_state.get(key)
    }
}

} // verus!
