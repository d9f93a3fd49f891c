use bustcall::cache_types::ModelBinding;
use bustcall::delegation::{
    ByzantineVote, ConsensusVote, DelegationError, DelegationTask, DelegationTreeConfig,
    MonitorAction, PollResult, ProcessDelegationTree, ProcessExecutionState, evaluate_consensus,
    fresh_delegate_id, monitor_and_bust,
};
use bustcall::dimensional_cache::DimensionalCacheManager;
use bustcall::pow::validate_proof_of_work;
use bustcall::queue::PriorityQueue;
use bustcall::server_api::compute_cache_key;

fn task(id: &str, priority: u8, timeout: u64, proof_required: bool) -> DelegationTask {
    DelegationTask {
        task_id: id.to_string(),
        target_node: "root".to_string(),
        command: "sleep".to_string(),
        args: vec!["5".to_string()],
        environment: Vec::new(),
        timeout_seconds: timeout,
        priority,
        proof_required,
        challenge: None,
    }
}

fn vote(voter: &str, approve: bool) -> ConsensusVote {
    ConsensusVote {
        voter_node_id: voter.to_string(),
        task_id: "t".to_string(),
        vote: if approve { ByzantineVote::Approve } else { ByzantineVote::Reject },
        timestamp: 0,
        signature: String::new(),
    }
}

fn tree_with_root() -> ProcessDelegationTree {
    let mut tree = ProcessDelegationTree::new(DelegationTreeConfig::default());
    tree.register_root_node(1234, "daemon".to_string(), 0);
    tree
}

#[test]
fn queue_pops_strictly_non_increasing_scores() {
    let mut queue: PriorityQueue<&str> = PriorityQueue::new();
    queue.push(1, "low");
    queue.push(5, "first-medium");
    queue.push(10, "high");
    queue.push(5, "second-medium");
    let a = queue.pop().unwrap();
    let b = queue.pop().unwrap();
    let c = queue.pop().unwrap();
    let d = queue.pop().unwrap();
    assert_eq!(a.payload, "high");
    assert_eq!(b.payload, "first-medium");
    assert_eq!(c.payload, "second-medium");
    assert_eq!(d.payload, "low");
    assert!(a.score >= b.score && b.score >= c.score && c.score >= d.score);
    assert!(queue.pop().is_none());
}

#[test]
fn pow_validation_is_deterministic() {
    let payload: Vec<u8> = vec![1, 2, 3, 4];
    let first = validate_proof_of_work(&payload, 42, 4);
    let second = validate_proof_of_work(&payload, 42, 4);
    assert_eq!(first, second);
    // Difficulty zero accepts every nonce.
    assert!(validate_proof_of_work(&payload, 42, 0));
    assert!(validate_proof_of_work(&payload, 7, 0));
}

#[test]
fn pow_verdict_is_payload_sensitive() {
    // Find a nonce that satisfies a one-bit difficulty target, then flip
    // single payload bits: the verdict must depend on the payload, so not
    // every corrupted payload can keep the original verdict.
    let payload: Vec<u8> = vec![0xde, 0xad, 0xbe, 0xef];
    let mut nonce: u64 = 0;
    while !validate_proof_of_work(&payload, nonce, 1) {
        nonce += 1;
    }
    let mut differing = 0;
    for bit in 0..16u8 {
        let mut corrupted = payload.clone();
        corrupted[(bit / 8) as usize] ^= 1 << (bit % 8);
        if !validate_proof_of_work(&corrupted, nonce, 1) {
            differing += 1;
        }
    }
    assert!(differing > 0);
}

#[test]
fn pow_digest_is_really_hashed() {
    // A known SHA-256 vector, observed through the cache key derivation.
    let key = compute_cache_key("abc");
    assert_eq!(
        key,
        "sha256:ba7816bf8f01cfea414140de5dae2223b00361a396177a9cb410ff61f20015ad"
    );
}

#[test]
fn consensus_trivially_approves_without_voters() {
    let votes: Vec<ConsensusVote> = Vec::new();
    assert!(evaluate_consensus(&votes, 0, 666));
}

#[test]
fn consensus_needs_two_thirds() {
    let two_of_three = vec![vote("a", true), vote("b", true), vote("c", false)];
    assert!(evaluate_consensus(&two_of_three, 3, 666));
    let one_of_three = vec![vote("a", true), vote("b", false), vote("c", false)];
    assert!(!evaluate_consensus(&one_of_three, 3, 666));
}

#[test]
fn delegate_unknown_node_is_rejected() {
    let mut tree = ProcessDelegationTree::new(DelegationTreeConfig::default());
    let votes: Vec<ConsensusVote> = Vec::new();
    let result = tree.delegate_task("ghost", task("t1", 5, 30, false), &votes, 0, 0);
    assert_eq!(result, Err(DelegationError::DelegatorNotFound));
}

#[test]
fn leaf_node_may_not_delegate() {
    let mut tree = tree_with_root();
    tree.register_child_node("leaf-node".to_string(), "root", &task("t0", 1, 30, false), 77, 0)
        .unwrap();
    let votes: Vec<ConsensusVote> = Vec::new();
    let result = tree.delegate_task("leaf-node", task("t1", 5, 30, false), &votes, 0, 0);
    assert_eq!(result, Err(DelegationError::InsufficientAuthority));
}

#[test]
fn failed_consensus_rejects_delegation() {
    let mut tree = tree_with_root();
    let votes = vec![vote("a", false), vote("b", false), vote("c", true)];
    let result = tree.delegate_task("root", task("t1", 5, 30, false), &votes, 3, 0);
    assert_eq!(result, Err(DelegationError::ConsensusRejected));
    assert_eq!(tree.task_queue_len(), 0);
}

#[test]
fn accepted_delegation_queues_task_with_challenge() {
    let mut tree = tree_with_root();
    let votes: Vec<ConsensusVote> = Vec::new();
    let accepted = tree.delegate_task("root", task("proofy", 9, 30, true), &votes, 0, 100);
    assert_eq!(accepted, Ok("proofy".to_string()));
    assert_eq!(tree.task_queue_len(), 1);
    let queued = tree.next_task().expect("queued task");
    assert_eq!(queued.task_id, "proofy");
    let challenge = queued.challenge.expect("proof-required task gets a challenge");
    assert_eq!(challenge.target_difficulty, 5);
    assert_eq!(challenge.deadline, 130);
    assert_eq!(challenge.task_payload.len(), 32);
    assert_eq!(challenge.challenge_id.len(), 16);
}

#[test]
fn task_queue_is_priority_fifo() {
    let mut tree = tree_with_root();
    let votes: Vec<ConsensusVote> = Vec::new();
    tree.delegate_task("root", task("low", 1, 30, false), &votes, 0, 0).unwrap();
    tree.delegate_task("root", task("urgent-a", 9, 30, false), &votes, 0, 0).unwrap();
    tree.delegate_task("root", task("urgent-b", 9, 30, false), &votes, 0, 0).unwrap();
    assert_eq!(tree.next_task().unwrap().task_id, "urgent-a");
    assert_eq!(tree.next_task().unwrap().task_id, "urgent-b");
    assert_eq!(tree.next_task().unwrap().task_id, "low");
    assert!(tree.next_task().is_none());
}

#[test]
fn timeout_terminates_and_busts_high() {
    let mut tree = tree_with_root();
    let mut cache = DimensionalCacheManager::new();
    let sleepy = task("sleepy", 5, 1, false);
    tree.register_child_node("delegate-sleepy".to_string(), "root", &sleepy, 4321, 0).unwrap();
    cache.bind_model(
        "delegate-sleepy",
        ModelBinding {
            runtime: "sleep".to_string(),
            pid: Some(4321),
            path: String::new(),
            last_modified: 0,
            cache_dependencies: Vec::new(),
        },
    );
    // Within the deadline nothing happens.
    let action = monitor_and_bust(&mut tree, &mut cache, "delegate-sleepy", PollResult::StillRunning, 1);
    assert!(matches!(action, MonitorAction::KeepRunning));
    // Past the deadline the node is terminated, unlinked, and busted at High.
    let action = monitor_and_bust(&mut tree, &mut cache, "delegate-sleepy", PollResult::StillRunning, 2);
    match action {
        MonitorAction::KillAndBust { bust_target } => assert_eq!(bust_target, "delegate-sleepy"),
        other => panic!("expected a kill order, got {:?}", other),
    }
    match tree.node_execution_state("delegate-sleepy") {
        Some(ProcessExecutionState::Terminated { signal, terminated_at }) => {
            assert_eq!(signal, 9);
            assert_eq!(terminated_at, 2);
        },
        other => panic!("expected Terminated, got {:?}", other),
    }
    let children = tree.node_children("root").unwrap();
    assert!(!children.iter().any(|c| c == "delegate-sleepy"));
    let rebuild = cache.pop_rebuild().expect("cleanup bust queues a rebuild");
    assert_eq!(rebuild.priority_score, 10);
    assert_eq!(rebuild.cache_id, "delegate-sleepy");
}

#[test]
fn terminal_node_is_removed_after_observation() {
    let mut tree = tree_with_root();
    let mut cache = DimensionalCacheManager::new();
    let sleepy = task("sleepy", 5, 1, false);
    tree.register_child_node("delegate-sleepy".to_string(), "root", &sleepy, 4321, 0).unwrap();
    assert_eq!(tree.node_count(), 2);
    monitor_and_bust(&mut tree, &mut cache, "delegate-sleepy", PollResult::StillRunning, 3);
    // The terminal state stays observable for one cycle, then cleanup
    // removes the node from the registry.
    assert!(matches!(
        tree.node_execution_state("delegate-sleepy"),
        Some(ProcessExecutionState::Terminated { .. })
    ));
    tree.remove_node("delegate-sleepy");
    assert!(tree.node_execution_state("delegate-sleepy").is_none());
    assert_eq!(tree.node_count(), 1);
    // Cleanup is idempotent.
    tree.remove_node("delegate-sleepy");
    assert_eq!(tree.node_count(), 1);
}

#[test]
fn removing_a_node_unlinks_it_from_its_parent() {
    let mut tree = tree_with_root();
    tree.register_child_node("delegate-a".to_string(), "root", &task("a", 1, 30, false), 1, 0)
        .unwrap();
    tree.register_child_node("delegate-b".to_string(), "root", &task("b", 1, 30, false), 2, 0)
        .unwrap();
    tree.remove_node("delegate-a");
    let children = tree.node_children("root").unwrap();
    assert!(!children.iter().any(|c| c == "delegate-a"));
    assert!(children.iter().any(|c| c == "delegate-b"));
}

#[test]
fn duplicate_node_id_is_refused() {
    let mut tree = tree_with_root();
    tree.register_child_node("delegate-x".to_string(), "root", &task("x", 1, 30, false), 1, 0)
        .unwrap();
    let again =
        tree.register_child_node("delegate-x".to_string(), "root", &task("y", 1, 30, false), 2, 0);
    assert_eq!(again, Err(DelegationError::InsufficientAuthority));
    assert_eq!(tree.node_count(), 2);
    // After removal the id may serve a fresh node again.
    tree.remove_node("delegate-x");
    assert!(tree
        .register_child_node("delegate-x".to_string(), "root", &task("z", 1, 30, false), 3, 0)
        .is_ok());
}

#[test]
fn monitor_leaves_other_nodes_untouched() {
    let mut tree = tree_with_root();
    let mut cache = DimensionalCacheManager::new();
    tree.register_child_node("delegate-one".to_string(), "root", &task("one", 1, 30, false), 1, 0)
        .unwrap();
    tree.register_child_node("delegate-two".to_string(), "root", &task("two", 1, 30, false), 2, 0)
        .unwrap();
    monitor_and_bust(&mut tree, &mut cache, "delegate-one", PollResult::Exited { exit_code: 0 }, 5);
    // The sibling still runs and stays in the parent's child set.
    assert!(matches!(
        tree.node_execution_state("delegate-two"),
        Some(ProcessExecutionState::Running { started_at: 0 })
    ));
    let children = tree.node_children("root").unwrap();
    assert!(children.iter().any(|c| c == "delegate-two"));
}

#[test]
fn natural_exit_completes_or_fails() {
    let mut tree = tree_with_root();
    tree.register_child_node("delegate-ok".to_string(), "root", &task("ok", 1, 30, false), 1, 0)
        .unwrap();
    tree.register_child_node("delegate-bad".to_string(), "root", &task("bad", 1, 30, false), 2, 0)
        .unwrap();
    let mut cache = DimensionalCacheManager::new();
    let action = monitor_and_bust(&mut tree, &mut cache, "delegate-ok", PollResult::Exited { exit_code: 0 }, 1);
    assert!(matches!(action, MonitorAction::Reap { succeeded: true }));
    assert!(matches!(
        tree.node_execution_state("delegate-ok"),
        Some(ProcessExecutionState::Completed { exit_code: 0, completed_at: 1 })
    ));
    let action = monitor_and_bust(&mut tree, &mut cache, "delegate-bad", PollResult::Exited { exit_code: 3 }, 1);
    assert!(matches!(action, MonitorAction::Reap { succeeded: false }));
    assert!(matches!(
        tree.node_execution_state("delegate-bad"),
        Some(ProcessExecutionState::Failed { .. })
    ));
}

#[test]
fn fault_score_decays_and_is_monotone() {
    let mut tree = tree_with_root();
    tree.record_fault_report("root", 5);
    assert_eq!(tree.node_fault_score_milli("root"), Some(5000));
    // Fresh heartbeat: the score decays by a factor of 0.9 each tick.
    tree.heartbeat_tick(1);
    assert_eq!(tree.node_fault_score_milli("root"), Some(4500));
    tree.heartbeat_tick(2);
    assert_eq!(tree.node_fault_score_milli("root"), Some(4050));
    let mut last = 4050u32;
    for t in 3..120u64 {
        // The node keeps reporting heartbeats, so the score only decays.
        tree.record_heartbeat("root", t);
        tree.heartbeat_tick(t);
        let next = tree.node_fault_score_milli("root").unwrap();
        assert!(next <= last);
        last = next;
    }
    assert_eq!(tree.node_fault_score_milli("root"), Some(0));
}

#[test]
fn stale_heartbeat_raises_to_critical() {
    let mut tree = tree_with_root();
    assert_eq!(tree.node_fault_score_milli("root"), Some(0));
    // Heartbeat was at 0 and the staleness window is 10 ticks.
    tree.heartbeat_tick(11);
    assert_eq!(tree.node_fault_score_milli("root"), Some(3000));
}

#[test]
fn fault_report_saturates_at_panic_band() {
    let mut tree = tree_with_root();
    tree.record_fault_report("root", 200);
    assert_eq!(tree.node_fault_score_milli("root"), Some(12000));
}

#[test]
fn escalation_lists_danger_nodes() {
    let mut tree = tree_with_root();
    tree.register_child_node("delegate-calm".to_string(), "root", &task("calm", 1, 30, false), 5, 0)
        .unwrap();
    tree.record_fault_report("root", 7);
    let candidates = tree.escalation_candidates();
    assert_eq!(candidates, vec!["root".to_string()]);
}

#[test]
fn invalid_proof_of_work_blocks_execution() {
    let mut tree = tree_with_root();
    let votes: Vec<ConsensusVote> = Vec::new();
    tree.delegate_task("root", task("gated", 5, 30, true), &votes, 0, 0).unwrap();
    let queued = tree.next_task().unwrap();
    // A difficulty-five challenge succeeds for one nonce in 32 on average;
    // search for one valid nonce, then try invalid ones.
    let mut valid_nonce: Option<u64> = None;
    for nonce in 0..10_000u64 {
        let challenge = queued.challenge.as_ref().unwrap();
        if bustcall::pow::validate_proof_of_work(
            &challenge.task_payload,
            nonce,
            challenge.target_difficulty,
        ) {
            valid_nonce = Some(nonce);
            break;
        }
    }
    let good = valid_nonce.expect("a valid nonce exists in the first ten thousand");
    assert_eq!(tree.approve_execution(&queued, good), Ok(()));
    let mut rejected = 0;
    for nonce in 0..64u64 {
        if tree.approve_execution(&queued, nonce) == Err(DelegationError::ConsensusRejected) {
            rejected += 1;
        }
    }
    // Most nonces must fail a difficulty-five target.
    assert!(rejected > 32);
    // A task without a challenge is never blocked.
    let plain = task("plain", 1, 30, false);
    assert_eq!(tree.approve_execution(&plain, 0), Ok(()));
}

#[test]
fn fresh_delegate_ids_are_prefixed() {
    let id = fresh_delegate_id();
    assert_eq!(id.len(), 45);
    assert!(id.starts_with("delegate-"));
    assert_ne!(fresh_delegate_id(), id);
}

#[test]
fn root_node_has_root_authority() {
    let tree = tree_with_root();
    assert_eq!(tree.node_count(), 1);
    let mut probe = ProcessDelegationTree::new(DelegationTreeConfig::default());
    probe.register_root_node(9, "x".to_string(), 0);
    let votes: Vec<ConsensusVote> = Vec::new();
    // Root may delegate; the task is accepted.
    assert!(probe.delegate_task("root", task("t", 1, 30, false), &votes, 0, 0).is_ok());
}
