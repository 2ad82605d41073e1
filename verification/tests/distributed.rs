use nros::distributed::{
    DistributedState, FleetCoordinator, LeaderElection, NodeCapabilities, NodeInfo, NodeRole, ReplicationMode,
    RobotId, SchedulerError, TaskId, TaskRequirements, TaskScheduler, TaskStatus, heartbeat_expired,
};
use std::time::Instant;

fn robot(id: u64, caps: NodeCapabilities) -> NodeInfo {
    NodeInfo {
        id: RobotId::new(id),
        role: NodeRole::Follower,
        address: format!("127.0.0.1:{}", 5000 + id),
        last_heartbeat: Instant::now(),
        capabilities: caps,
    }
}

fn requirements(cores: u32, mem: u64, gpu: bool, sensors: &[&str]) -> TaskRequirements {
    TaskRequirements {
        min_cpu_cores: cores,
        min_memory_mb: mem,
        requires_gpu: gpu,
        required_sensors: sensors.iter().map(|s| s.to_string()).collect(),
    }
}

#[test]
fn test_leader_election() {
    let n1 = RobotId::new(1);
    let mut election = LeaderElection::new(n1);
    let peer = NodeInfo {
        id: RobotId::new(2),
        role: NodeRole::Follower,
        address: "127.0.0.1:5002".to_string(),
        last_heartbeat: Instant::now(),
        capabilities: NodeCapabilities::mid_range(),
    };
    election.add_peer(peer);
    let _ = election.start_election();
    let role = election.role();
    assert!(matches!(role, NodeRole::Leader | NodeRole::Follower | NodeRole::Candidate));
}

#[test]
fn test_distributed_state() {
    let mut state = DistributedState::new(RobotId::new(1), 3);
    let ver = state.set("key1".to_string(), "value1".to_string()).unwrap();
    assert_eq!(ver, 1);
    assert_eq!(state.get("key1"), Some("value1".to_string()));
    assert_eq!(state.len(), 1);
    state.delete("key1").unwrap();
    assert_eq!(state.get("key1"), None);
}

#[test]
fn test_task_scheduling() {
    let caps = NodeCapabilities::high_end();
    let mut scheduler = TaskScheduler::new(RobotId::new(1), caps);
    let task_id = scheduler.submit_task("test".to_string(), 5, requirements(2, 1024, false, &[]));
    assert_eq!(scheduler.count(), 1);
    scheduler.assign_task(task_id, RobotId::new(1)).unwrap();
    let stats = scheduler.task_stats();
    assert_eq!(stats.assigned, 1);
}

#[test]
fn test_capability_matching() {
    let high = NodeCapabilities::high_end();
    let low = NodeCapabilities::low_end();
    let gpu_task = requirements(2, 2048, true, &["camera"]);
    assert!(high.matches(&gpu_task));
    assert!(!low.matches(&gpu_task));
}

#[test]
fn test_consistent_hash() {
    let state = DistributedState::<String>::new(RobotId::new(1), 3);
    let shard1 = state.consistent_hash_shard("max_speed", 10);
    let shard2 = state.consistent_hash_shard("max_speed", 10);
    assert_eq!(shard1, shard2);
}

#[test]
fn distributed_fnv1a_shard_value() {
    // FNV-1a of "a" is 0xaf63bd4c8601b7be; 0xaf63bd4c8601b7be % 10 == 0.
    let state = DistributedState::<u32>::new(RobotId::new(1), 3);
    assert_eq!(state.consistent_hash_shard("a", 10), (0xaf63bd4c8601b7beu64 % 10) as usize);
    assert!(state.consistent_hash_shard("max_speed", 7) < 7);
}

#[test]
fn distributed_set_overwrites_and_counts_versions() {
    let mut state = DistributedState::new(RobotId::new(4), 2).with_replication_mode(ReplicationMode::Real);
    assert!(!state.is_simulated());
    assert_eq!(state.set("k".to_string(), 1u32), Ok(1));
    assert_eq!(state.set("k".to_string(), 2u32), Ok(2));
    assert_eq!(state.set("j".to_string(), 3u32), Ok(3));
    assert_eq!(state.get("k"), Some(2));
    assert_eq!(state.len(), 2);
    let mut keys = state.keys();
    keys.sort();
    assert_eq!(keys, vec!["j".to_string(), "k".to_string()]);
}

#[test]
fn distributed_single_node_always_wins_election() {
    let mut election = LeaderElection::new(RobotId::new(9));
    assert!(election.start_election());
    assert!(election.is_leader());
    assert_eq!(election.get_leader(), Some(RobotId::new(9)));
    assert_eq!(election.term(), 1);
    assert!(!election.check_leader_timeout());
}

#[test]
fn distributed_stale_heartbeat_is_ignored() {
    let mut election = LeaderElection::new(RobotId::new(1));
    election.receive_heartbeat(RobotId::new(2), 5);
    assert_eq!(election.term(), 5);
    assert_eq!(election.get_leader(), Some(RobotId::new(2)));
    election.receive_heartbeat(RobotId::new(3), 4);
    assert_eq!(election.term(), 5);
    assert_eq!(election.get_leader(), Some(RobotId::new(2)));
    assert_eq!(election.role(), NodeRole::Follower);
}

#[test]
fn distributed_scheduler_errors() {
    let mut scheduler = TaskScheduler::new(RobotId::new(1), NodeCapabilities::low_end());
    assert_eq!(scheduler.assign_task(TaskId(7), RobotId::new(1)), Err(SchedulerError::TaskNotFound { task: TaskId(7) }));
    let id = scheduler.submit_task("scan".to_string(), 1, requirements(1, 1, false, &[]));
    scheduler.assign_task(id, RobotId::new(2)).unwrap();
    assert_eq!(
        scheduler.assign_task(id, RobotId::new(2)),
        Err(SchedulerError::NotPending { task: id, status: TaskStatus::Assigned })
    );
    assert!(matches!(scheduler.begin_execution(id), Err(SchedulerError::NotAssignedHere { .. })));
}

#[test]
fn distributed_pending_tasks_by_priority() {
    let mut scheduler = TaskScheduler::new(RobotId::new(1), NodeCapabilities::high_end());
    let a = scheduler.submit_task("a".to_string(), 1, requirements(1, 1, false, &[]));
    let b = scheduler.submit_task("b".to_string(), 9, requirements(1, 1, false, &[]));
    let c = scheduler.submit_task("c".to_string(), 5, requirements(1, 1, false, &[]));
    scheduler.assign_task(c, RobotId::new(1)).unwrap();
    let pending: Vec<TaskId> = scheduler.pending_tasks().iter().map(|t| t.id).collect();
    assert_eq!(pending, vec![b, a]);
    let stats = scheduler.task_stats();
    assert_eq!((stats.total, stats.pending, stats.assigned), (3, 2, 1));
}

#[test]
fn distributed_fleet_assigns_to_most_capable_robot() {
    let mut fleet = FleetCoordinator::new("fleet".to_string(), RobotId::new(1), NodeCapabilities::low_end());
    fleet.register_robot(robot(2, NodeCapabilities::mid_range()));
    fleet.register_robot(robot(3, NodeCapabilities::high_end()));
    let gpu = fleet.task_scheduler.submit_task("detect".to_string(), 3, requirements(2, 1024, true, &["camera"]));
    let light = fleet.task_scheduler.submit_task("log".to_string(), 1, requirements(1, 64, false, &[]));
    let impossible = fleet.task_scheduler.submit_task("huge".to_string(), 1, requirements(1000, 1, false, &[]));
    // With two peers the votes are simulated; take the lead directly for a deterministic round.
    fleet.leader_election.role = NodeRole::Leader;
    fleet.leader_election.leader_id = Some(RobotId::new(1));
    fleet.coordinate().unwrap();
    let tasks = &fleet.task_scheduler.tasks;
    assert_eq!(tasks[gpu.0 as usize].assigned_to, Some(RobotId::new(3)));
    assert_eq!(tasks[gpu.0 as usize].status, TaskStatus::Assigned);
    assert_eq!(tasks[light.0 as usize].assigned_to, Some(RobotId::new(3)));
    assert_eq!(tasks[impossible.0 as usize].status, TaskStatus::Pending);
    let status = fleet.get_fleet_status();
    assert_eq!(status.total_robots, 3);
    assert_eq!(status.tasks.assigned, 2);
}

#[test]
fn distributed_fleet_falls_back_to_itself() {
    let mut fleet = FleetCoordinator::new("solo".to_string(), RobotId::new(1), NodeCapabilities::high_end());
    let t = fleet.task_scheduler.submit_task("plan".to_string(), 2, requirements(4, 1024, false, &[]));
    assert!(fleet.leader_election.start_election());
    fleet.coordinate().unwrap();
    assert_eq!(fleet.task_scheduler.tasks[t.0 as usize].assigned_to, Some(RobotId::new(1)));
    assert_eq!(fleet.set_fleet_parameter("max_speed".to_string(), "2.0".to_string()), Ok(1));
    assert_eq!(fleet.get_fleet_parameter("max_speed"), Some("2.0".to_string()));
}

#[test]
fn distributed_display_texts() {
    assert_eq!(RobotId::new(7).to_string(), "Robot(7)");
    assert_eq!(TaskId(12).to_string(), "Task(12)");
    assert_eq!(TaskStatus::Completed.as_str(), "Completed");
    assert_eq!(NodeRole::Candidate.as_str(), "Candidate");
    let mut fleet = FleetCoordinator::new("f1".to_string(), RobotId::new(1), NodeCapabilities::high_end());
    fleet.task_scheduler.submit_task("x".to_string(), 1, requirements(1, 1, false, &[]));
    assert!(fleet.leader_election.start_election());
    let st = fleet.get_fleet_status();
    assert_eq!(
        st.to_string(),
        "Fleet 'f1' robots:1 leader:Some(1) term:1 tasks:[total:1 pending:1 assigned:0 running:0 completed:0 failed:0]"
    );
}

#[test]
fn robot_ids_order_by_number() {
    assert!(RobotId::new(1) < RobotId::new(2));
    assert!(RobotId::new(7) > RobotId::new(3));
    assert_eq!(RobotId::new(4).partial_cmp(&RobotId::new(4)), Some(std::cmp::Ordering::Equal));
    let mut ids = vec![RobotId::new(9), RobotId::new(2), RobotId::new(5)];
    ids.sort();
    assert_eq!(ids, vec![RobotId::new(2), RobotId::new(5), RobotId::new(9)]);
}

#[test]
fn heartbeat_expires_strictly_after_the_timeout() {
    let t = std::time::Duration::from_millis(1500);
    assert!(heartbeat_expired(std::time::Duration::from_millis(1501), t));
    assert!(!heartbeat_expired(std::time::Duration::from_millis(1500), t));
    assert!(!heartbeat_expired(std::time::Duration::from_millis(10), t));
}

#[test]
fn coordinate_step_elects_only_on_timeout() {
    let mut fleet = FleetCoordinator::new("solo".to_string(), RobotId::new(1), NodeCapabilities::high_end());
    let term = fleet.leader_election.term();
    assert!(fleet.coordinate_step(false).is_ok());
    assert_eq!(fleet.leader_election.term(), term);
    assert!(!fleet.leader_election.is_leader());
    assert!(fleet.coordinate_step(true).is_ok());
    assert_eq!(fleet.leader_election.term(), term + 1);
    assert!(fleet.leader_election.is_leader());
}
