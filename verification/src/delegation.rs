//! The process delegation tree: a registry of subordinate worker nodes with
//! parent/child id references, a priority queue of delegation tasks, an
//! authority and consensus gate in front of execution, and fault scoring
//! with heartbeat decay. Spawning, polling and killing of OS processes
//! happen outside; this module makes every decision about them.

use vstd::prelude::*;
use vstd::string::StringExecFns;
use crate::pow::{ProofOfWorkChallenge, generate_proof_challenge, spec_pow_verdict, validate_proof_of_work};
use crate::queue::{PriorityQueue, QueueItem, pop_index};

verus! {

/// A node's permission tier for delegating further work.
#[derive(Debug, Clone, Copy, PartialEq, Eq, Structural)]
pub enum DelegationAuthority {
    /// Can delegate to any node.
    Root,
    /// Can delegate to child nodes only.
    Intermediate,
    /// Cannot delegate further.
    Leaf,
    /// Isolated after a fault; cannot delegate.
    Isolated,
}

/// Finite state machine of one delegated process.
#[derive(Debug, Clone)]
pub enum ProcessExecutionState {
    Pending,
    Spawning,
    Running { started_at: u64 },
    Completed { exit_code: i32, completed_at: u64 },
    Failed { error_message: String, failed_at: u64 },
    Terminated { signal: i32, terminated_at: u64 },
}

/// How stdio of a delegated process is wired.
#[derive(Debug, Clone)]
pub enum StdioMode {
    Inherit,
    Piped,
    Null,
    File(String),
}

/// The command a delegated process runs.
#[derive(Debug, Clone)]
pub struct ProcessCommandSpec {
    pub executable_path: String,
    pub arguments: Vec<String>,
    pub environment_vars: Vec<(String, String)>,
    pub working_directory: String,
    pub stdin_mode: StdioMode,
    pub stdout_mode: StdioMode,
    pub stderr_mode: StdioMode,
}

/// A task submitted for delegation.
#[derive(Debug, Clone)]
pub struct DelegationTask {
    pub task_id: String,
    pub target_node: String,
    pub command: String,
    pub args: Vec<String>,
    pub environment: Vec<(String, String)>,
    pub timeout_seconds: u64,
    pub priority: u8,
    pub proof_required: bool,
    pub challenge: Option<ProofOfWorkChallenge>,
}

/// A vote on a delegation proposal.
#[derive(Debug, Clone)]
pub enum ByzantineVote {
    Approve,
    Reject,
    Abstain,
    Challenge(ProofOfWorkChallenge),
}

/// A recorded consensus vote.
#[derive(Debug, Clone)]
pub struct ConsensusVote {
    pub voter_node_id: String,
    pub task_id: String,
    pub vote: ByzantineVote,
    pub timestamp: u64,
    pub signature: String,
}

/// Kinds of votes a proposal can collect.
#[derive(Debug, Clone, Copy, PartialEq, Eq, Structural)]
pub enum VoteType {
    Approve,
    Reject,
    Abstain,
    RequireProofOfWork,
}

/// A completed proof-of-work attestation attached to a delegation.
#[derive(Debug, Clone)]
pub struct DelegationProof {
    pub delegator_node_id: String,
    pub delegate_node_id: String,
    pub task_hash: String,
    pub nonce: u64,
    pub difficulty_target: u32,
    pub timestamp: u64,
    pub verification_signature: String,
}

/// The answer to a delegation request.
#[derive(Debug, Clone)]
pub struct DelegationResponse {
    pub success: bool,
    pub delegate_node_id: Option<String>,
    pub error_message: Option<String>,
    pub proof_of_work: Option<DelegationProof>,
}

/// Why a delegation was refused.
#[derive(Debug, Clone, Copy, PartialEq, Eq, Structural)]
pub enum DelegationError {
    DelegatorNotFound,
    InsufficientAuthority,
    ConsensusRejected,
}

/// The registry's view of one delegated process. Identity is the node id;
/// parent and children are id references, never owning pointers. The fault
/// score lives on the 0..=12 scale, kept in thousandths.
#[derive(Debug, Clone)]
pub struct DelegationNode {
    pub node_id: String,
    pub unix_pid: Option<u32>,
    pub parent_node_id: Option<String>,
    pub child_node_ids: Vec<String>,
    pub command_line: String,
    pub fault_score_milli: u32,
    pub last_heartbeat: u64,
    pub delegation_authority: DelegationAuthority,
    pub execution_state: ProcessExecutionState,
    pub timeout_seconds: u64,
    pub proof_nonce: Option<u64>,
    pub work_difficulty: u32,
}

/// What the supervising loop must do after a monitor step.
#[derive(Debug, Clone)]
pub enum MonitorAction {
    /// Nothing to do; the process is within its deadline.
    KeepRunning,
    /// The process exited on its own; its handle can be dropped.
    Reap { succeeded: bool },
    /// The deadline passed: kill the process, then wait on it, and bust the
    /// named target at High severity.
    KillAndBust { bust_target: String },
    /// The node is not running anything to monitor.
    NothingRunning,
}

/// What polling a child process handle observed.
#[derive(Debug, Clone, Copy, PartialEq, Eq, Structural)]
pub enum PollResult {
    StillRunning,
    Exited { exit_code: i32 },
    PollError,
}

/// Tuning of the delegation tree.
#[derive(Debug, Clone)]
pub struct DelegationTreeConfig {
    pub max_tree_depth: u8,
    pub consensus_threshold_permille: u32,
    pub proof_of_work_difficulty: u32,
    pub delegation_timeout_seconds: u64,
    pub byzantine_fault_threshold_permille: u32,
    pub process_monitoring_interval_ms: u64,
    pub heartbeat_interval_ms: u64,
    pub heartbeat_stale_window: u64,
    pub fault_escalation_threshold: u8,
}

impl Default for DelegationTreeConfig {
    /// Two-thirds consensus (rounded down to thousandths, so exactly two of
    /// three voters approve), difficulty five, half-second monitoring, a
    /// ten tick heartbeat staleness window.
    fn default() -> (r: DelegationTreeConfig)
        ensures
            r.max_tree_depth == 4,
            r.consensus_threshold_permille == 666,
            r.proof_of_work_difficulty == 5,
            r.delegation_timeout_seconds == 30,
            r.byzantine_fault_threshold_permille == 333,
            r.process_monitoring_interval_ms == 500,
            r.heartbeat_interval_ms == 1000,
            r.heartbeat_stale_window == 10,
            r.fault_escalation_threshold == 3,
    {
        DelegationTreeConfig {
            max_tree_depth: 4,
            consensus_threshold_permille: 666,
            proof_of_work_difficulty: 5,
            delegation_timeout_seconds: 30,
            byzantine_fault_threshold_permille: 333,
            process_monitoring_interval_ms: 500,
            heartbeat_interval_ms: 1000,
            heartbeat_stale_window: 10,
            fault_escalation_threshold: 3,
        }
    }
}

/// Hash function the proof-of-work engine runs on.
#[derive(Debug, Clone, Copy, PartialEq, Eq, Structural)]
pub enum HashAlgorithm {
    Sha256,
    Blake3,
}

/// Difficulty and hash selection of the proof-of-work gate.
#[derive(Debug, Clone, Copy, PartialEq, Eq, Structural)]
pub struct ProofOfWorkEngine {
    pub difficulty_target: u32,
    pub hash_algorithm: HashAlgorithm,
}

impl ProofOfWorkEngine {
    /// An engine at the given difficulty.
    pub fn new(difficulty: u32, algorithm: HashAlgorithm) -> (r: ProofOfWorkEngine)
        ensures
            r.difficulty_target == difficulty,
            r.hash_algorithm == algorithm,
    {
        ProofOfWorkEngine { difficulty_target: difficulty, hash_algorithm: algorithm }
    }
}

/// Approvals among the recorded votes.
pub open spec fn spec_approve_count(s: Seq<ConsensusVote>) -> nat
    decreases s.len(),
{
    if s.len() == 0 {
        0
    } else {
        spec_approve_count(s.drop_last()) + (if s.last().vote is Approve {
            1nat
        } else {
            0nat
        })
    }
}

/// The vote gate: with no expected voters consensus trivially approves;
/// otherwise approvals must reach the threshold fraction of expected
/// voters.
pub open spec fn spec_consensus_approves(
    votes: Seq<ConsensusVote>,
    expected_voters: u64,
    threshold_permille: u32,
) -> bool {
    expected_voters == 0 || spec_approve_count(votes) * 1000 >= threshold_permille
        * expected_voters
}

/// Count the approving votes.
pub fn approve_count(votes: &Vec<ConsensusVote>) -> (r: usize)
    ensures
        r == spec_approve_count(votes@),
        r <= votes@.len(),
{
    let mut count: usize = 0;
    let mut i: usize = 0;
    while i < votes.len()
        invariant
            i <= votes@.len(),
            count == spec_approve_count(votes@.take(i as int)),
            count <= i,
        decreases votes@.len() - i,
    {
        let approve = match votes[i].vote {
            ByzantineVote::Approve => true,
            _ => false,
        };
        if approve {
            count += 1;
        }
        proof {
            assert(votes@.take(i + 1).drop_last() =~= votes@.take(i as int));
            assert(votes@.take(i + 1).last() == votes@[i as int]);
        }
        i += 1;
    }
    proof {
        assert(votes@.take(votes@.len() as int) =~= votes@);
    }
    count
}

/// Evaluate the consensus gate over the recorded votes.
pub fn evaluate_consensus(
    votes: &Vec<ConsensusVote>,
    expected_voters: u64,
    threshold_permille: u32,
) -> (r: bool)
    requires
        votes@.len() <= 1000000,
        expected_voters <= 1000000,
        threshold_permille <= 1000,
    ensures
        r == spec_consensus_approves(votes@, expected_voters, threshold_permille),
{
    if expected_voters == 0 {
        return true;
    }
    let approvals = approve_count(votes);
    let lhs: u64 = (approvals as u64) * 1000;
    let t: u64 = threshold_permille as u64;
    proof {
        assert(t * expected_voters <= 1000u64 * 1000000u64) by (nonlinear_arith)
            requires
                t <= 1000u64,
                expected_voters <= 1000000u64,
        ;
    }
    let rhs: u64 = t * expected_voters;
    lhs >= rhs
}

/// One tick of fault decay: nine tenths of the score, floored at zero.
pub open spec fn spec_fault_decay(score_milli: u32) -> u32 {
    ((score_milli * 9) / 10) as u32
}

/// Decay never raises a fault score, and a zero score stays zero: absent
/// new fault reports the level is monotonically non-increasing.
pub proof fn lemma_fault_decay_monotone(score_milli: u32)
    requires
        score_milli <= 12000,
    ensures
        spec_fault_decay(score_milli) <= score_milli,
        score_milli == 0 ==> spec_fault_decay(score_milli) == 0,
        spec_fault_decay(score_milli) <= 12000,
{
}

/// The delegation tree: node registry, task queue and configuration.
pub struct ProcessDelegationTree {
    nodes: Vec<DelegationNode>,
    task_queue: PriorityQueue<DelegationTask>,
    config: DelegationTreeConfig,
}

impl ProcessDelegationTree {
    /// The registered nodes, in registration order.
    pub closed spec fn nodes(self) -> Seq<DelegationNode> {
        self.nodes@
    }

    /// The queued tasks, in insertion order.
    pub closed spec fn tasks(self) -> Seq<QueueItem<DelegationTask>> {
        self.task_queue@
    }

    /// The tree's configuration.
    pub closed spec fn spec_config(self) -> DelegationTreeConfig {
        self.config
    }

    /// Node ids are unique and fault scores stay on the 0..=12 scale.
    pub open spec fn wf(self) -> bool {
        &&& forall|i: int, j: int|
            0 <= i < j < self.nodes().len() ==> self.nodes()[i].node_id@ != self.nodes()[j].node_id@
        &&& forall|i: int|
            0 <= i < self.nodes().len() ==> (#[trigger] self.nodes()[i]).fault_score_milli <= 12000
    }

    /// A node of this id is registered.
    pub open spec fn has_node(self, id: Seq<char>) -> bool {
        exists|i: int| 0 <= i < self.nodes().len() && self.nodes()[i].node_id@ == id
    }

    /// Index of the node of this id.
    pub open spec fn node_index(self, id: Seq<char>) -> int {
        choose|i: int| 0 <= i < self.nodes().len() && self.nodes()[i].node_id@ == id
    }

    /// The node of this id.
    pub open spec fn node_at(self, id: Seq<char>) -> DelegationNode {
        self.nodes()[self.node_index(id)]
    }

    /// Under unique ids, any index holding the id is the lookup index.
    pub proof fn lemma_node_index_unique(self, j: int, id: Seq<char>)
        requires
            self.wf(),
            0 <= j < self.nodes().len(),
            self.nodes()[j].node_id@ == id,
        ensures
            self.has_node(id),
            self.node_index(id) == j,
    {
        assert(self.has_node(id));
        let i = self.node_index(id);
        if i < j {
            assert(self.nodes()[i].node_id@ != self.nodes()[j].node_id@);
        }
        if j < i {
            assert(self.nodes()[j].node_id@ != self.nodes()[i].node_id@);
        }
    }

    /// An empty tree under the given configuration.
    pub fn new(config: DelegationTreeConfig) -> (r: ProcessDelegationTree)
        ensures
            r.wf(),
            r.nodes().len() == 0,
            r.tasks().len() == 0,
            r.spec_config() == config,
    {
        ProcessDelegationTree { nodes: Vec::new(), task_queue: PriorityQueue::new(), config }
    }

    /// Index of the node of this id, `None` when unregistered.
    fn find_node(&self, id: &str) -> (r: Option<usize>)
        requires
            self.wf(),
        ensures
            match r {
                Some(i) => i < self.nodes().len() && self.nodes()[i as int].node_id@ == id@
                    && i as int == self.node_index(id@) && self.has_node(id@),
                None => !self.has_node(id@),
            },
    {
        let needle = String::from_str(id);
        let mut i: usize = 0;
        while i < self.nodes.len()
            invariant
                self.wf(),
                needle@ == id@,
                i <= self.nodes().len(),
                forall|j: int| 0 <= j < i ==> self.nodes()[j].node_id@ != id@,
            decreases self.nodes().len() - i,
        {
            if self.nodes[i].node_id == needle {
                proof {
                    self.lemma_node_index_unique(i as int, id@);
                }
                return Some(i);
            }
            i += 1;
        }
        None
    }

    /// Register the root node of the tree, carrying this process itself.
    /// A node under the same id is replaced.
    pub fn register_root_node(&mut self, pid: u32, command_line: String, now: u64)
        requires
            old(self).wf(),
        ensures
            final(self).wf(),
            final(self).has_node("root"@),
            final(self).node_at("root"@).unix_pid == Some(pid),
            final(self).node_at("root"@).parent_node_id is None,
            final(self).node_at("root"@).delegation_authority == DelegationAuthority::Root,
            final(self).node_at("root"@).fault_score_milli == 0,
            final(self).node_at("root"@).last_heartbeat == now,
            final(self).node_at("root"@).execution_state matches ProcessExecutionState::Running {
                started_at,
            } && started_at == now,
            final(self).tasks() == old(self).tasks(),
    {
        let node = DelegationNode {
            node_id: String::from_str("root"),
            unix_pid: Some(pid),
            parent_node_id: None,
            child_node_ids: Vec::new(),
            command_line,
            fault_score_milli: 0,
            last_heartbeat: now,
            delegation_authority: DelegationAuthority::Root,
            execution_state: ProcessExecutionState::Running { started_at: now },
            timeout_seconds: 0,
            proof_nonce: None,
            work_difficulty: self.config.proof_of_work_difficulty,
        };
        self.upsert_node(node);
        proof {
            assert(final(self).has_node("root"@));
        }
    }

    /// Insert the node, replacing any earlier node under the same id.
    fn upsert_node(&mut self, node: DelegationNode)
        requires
            old(self).wf(),
            node.fault_score_milli <= 12000,
        ensures
            final(self).wf(),
            final(self).has_node(node.node_id@),
            final(self).node_at(node.node_id@) == node,
            forall|n: Seq<char>|
                n != node.node_id@ ==> {
                    &&& final(self).has_node(n) == old(self).has_node(n)
                    &&& (old(self).has_node(n) ==> final(self).node_at(n) == old(self).node_at(n))
                },
            final(self).tasks() == old(self).tasks(),
            final(self).spec_config() == old(self).spec_config(),
    {
        let ghost id_view = node.node_id@;
        let found = self.find_node(node.node_id.as_str());
        match found {
            Some(i) => {
                let ghost before = self.nodes@;
                self.nodes[i] = node;
                proof {
                    assert(self.nodes@ =~= before.update(i as int, self.nodes@[i as int]));
                    self.lemma_node_index_unique(i as int, id_view);
                    assert forall|n: Seq<char>| n != id_view implies {
                        &&& self.has_node(n) == old(self).has_node(n)
                        &&& (old(self).has_node(n) ==> self.node_at(n) == old(self).node_at(n))
                    } by {
                        if old(self).has_node(n) {
                            let j = old(self).node_index(n);
                            assert(old(self).nodes()[j].node_id@ == n);
                            assert(j != i as int);
                            old(self).lemma_node_index_unique(j, n);
                            self.lemma_node_index_unique(j, n);
                        } else {
                            if self.has_node(n) {
                                let j = self.node_index(n);
                                assert(old(self).nodes()[j].node_id@ == n);
                            }
                        }
                    }
                }
            },
            None => {
                let ghost before = self.nodes@;
                self.nodes.push(node);
                proof {
                    let len = before.len();
                    self.lemma_node_index_unique(len as int, id_view);
                    assert forall|n: Seq<char>| n != id_view implies {
                        &&& self.has_node(n) == old(self).has_node(n)
                        &&& (old(self).has_node(n) ==> self.node_at(n) == old(self).node_at(n))
                    } by {
                        if old(self).has_node(n) {
                            let j = old(self).node_index(n);
                            assert(old(self).nodes()[j].node_id@ == n);
                            assert(self.nodes()[j].node_id@ == n);
                            old(self).lemma_node_index_unique(j, n);
                            self.lemma_node_index_unique(j, n);
                        } else {
                            if self.has_node(n) {
                                let j = self.node_index(n);
                                assert(self.nodes()[j].node_id@ == n);
                                assert(j < len);
                                assert(old(self).nodes()[j].node_id@ == n);
                            }
                        }
                    }
                }
            },
        }
    }

    /// Whether the node's authority tier admits delegating further work:
    /// Root and Intermediate may delegate, Leaf and Isolated may not.
    pub fn can_delegate(node: &DelegationNode) -> (r: bool)
        ensures
            r == (node.delegation_authority == DelegationAuthority::Root
                || node.delegation_authority == DelegationAuthority::Intermediate),
    {
        match node.delegation_authority {
            DelegationAuthority::Root => true,
            DelegationAuthority::Intermediate => true,
            DelegationAuthority::Leaf => false,
            DelegationAuthority::Isolated => false,
        }
    }

    /// Submit a task for delegation. The delegator must be registered with
    /// Root or Intermediate authority, and the recorded votes must pass the
    /// consensus gate; a task asking for proof of work gets a fresh
    /// challenge. The accepted task joins the priority queue keyed by its
    /// priority, behind earlier tasks of the same priority.
    pub fn delegate_task(
        &mut self,
        delegator_node_id: &str,
        task: DelegationTask,
        votes: &Vec<ConsensusVote>,
        expected_voters: u64,
        now: u64,
    ) -> (r: Result<String, DelegationError>)
        requires
            old(self).wf(),
            votes@.len() <= 1000000,
            expected_voters <= 1000000,
            old(self).spec_config().consensus_threshold_permille <= 1000,
            now <= u64::MAX - 30,
        ensures
            final(self).wf(),
            final(self).nodes() == old(self).nodes(),
            final(self).spec_config() == old(self).spec_config(),
            !old(self).has_node(delegator_node_id@) ==> r == Err::<
                String,
                DelegationError,
            >(DelegationError::DelegatorNotFound) && final(self).tasks() == old(self).tasks(),
            old(self).has_node(delegator_node_id@) && !(old(self).node_at(
                delegator_node_id@,
            ).delegation_authority == DelegationAuthority::Root || old(self).node_at(
                delegator_node_id@,
            ).delegation_authority == DelegationAuthority::Intermediate) ==> r == Err::<
                String,
                DelegationError,
            >(DelegationError::InsufficientAuthority) && final(self).tasks() == old(self).tasks(),
            old(self).has_node(delegator_node_id@) && (old(self).node_at(
                delegator_node_id@,
            ).delegation_authority == DelegationAuthority::Root || old(self).node_at(
                delegator_node_id@,
            ).delegation_authority == DelegationAuthority::Intermediate) && !spec_consensus_approves(
                votes@,
                expected_voters,
                old(self).spec_config().consensus_threshold_permille,
            ) ==> r == Err::<String, DelegationError>(DelegationError::ConsensusRejected) && final(self).tasks() == old(self).tasks(),
            old(self).has_node(delegator_node_id@) && (old(self).node_at(
                delegator_node_id@,
            ).delegation_authority == DelegationAuthority::Root || old(self).node_at(
                delegator_node_id@,
            ).delegation_authority == DelegationAuthority::Intermediate) && spec_consensus_approves(
                votes@,
                expected_voters,
                old(self).spec_config().consensus_threshold_permille,
            ) ==> {
                &&& r is Ok
                &&& r->Ok_0@ == task.task_id@
                &&& final(self).tasks().len() == old(self).tasks().len() + 1
                &&& final(self).tasks().drop_last() == old(self).tasks()
                &&& final(self).tasks().last().score == task.priority
                &&& final(self).tasks().last().payload.task_id@ == task.task_id@
                &&& final(self).tasks().last().payload.priority == task.priority
                &&& final(self).tasks().last().payload.timeout_seconds == task.timeout_seconds
                &&& (task.proof_required ==> (final(self).tasks().last().payload.challenge
                    matches Some(c) && c.target_difficulty == old(
                    self,
                ).spec_config().proof_of_work_difficulty && c.deadline == now + 30
                    && c.task_payload@.len() == 32))
                &&& (!task.proof_required ==> final(self).tasks().last().payload.challenge
                    == task.challenge)
            },
    {
        let delegator = match self.find_node(delegator_node_id) {
            Some(i) => i,
            None => {
                return Err(DelegationError::DelegatorNotFound);
            },
        };
        if !Self::can_delegate(&self.nodes[delegator]) {
            return Err(DelegationError::InsufficientAuthority);
        }
        if !evaluate_consensus(votes, expected_voters, self.config.consensus_threshold_permille) {
            return Err(DelegationError::ConsensusRejected);
        }
        let mut task = task;
        if task.proof_required {
            let id_bytes = task.task_id.as_str().as_bytes();
            let mut id_vec: Vec<u8> = Vec::new();
            let mut i: usize = 0;
            while i < id_bytes.len()
                invariant
                    i <= id_bytes@.len(),
                    id_vec@ =~= id_bytes@.subrange(0, i as int),
                decreases id_bytes@.len() - i,
            {
                id_vec.push(id_bytes[i]);
                i += 1;
            }
            let challenge = generate_proof_challenge(
                &id_vec,
                now,
                self.config.proof_of_work_difficulty,
                String::from_str(delegator_node_id),
            );
            task.challenge = Some(challenge);
        }
        let task_id = task.task_id.clone();
        let priority = task.priority;
        self.task_queue.push(priority as u64, task);
        proof {
            assert(self.tasks().drop_last() =~= old(self).tasks());
        }
        Ok(task_id)
    }

    /// Gate a dequeued task before execution: a task carrying a
    /// proof-of-work challenge runs only when the supplied nonce satisfies
    /// it; an invalid proof is rejected as a failed consensus and no
    /// process is ever spawned for it.
    pub fn approve_execution(&self, task: &DelegationTask, nonce: u64) -> (r: Result<
        (),
        DelegationError,
    >)
        ensures
            task.challenge is None ==> r is Ok,
            task.challenge matches Some(c) ==> {
                &&& (spec_pow_verdict(c.task_payload@, nonce, c.target_difficulty) ==> r is Ok)
                &&& (!spec_pow_verdict(c.task_payload@, nonce, c.target_difficulty) ==> r == Err::<
                    (),
                    DelegationError,
                >(DelegationError::ConsensusRejected))
            },
    {
        match &task.challenge {
            None => Ok(()),
            Some(challenge) => {
                if validate_proof_of_work(
                    &challenge.task_payload,
                    nonce,
                    challenge.target_difficulty,
                ) {
                    Ok(())
                } else {
                    Err(DelegationError::ConsensusRejected)
                }
            },
        }
    }

    /// Dequeue the most urgent task: strictly higher priority always leaves
    /// first, first-in-first-out within one priority tier.
    pub fn next_task(&mut self) -> (r: Option<DelegationTask>)
        ensures
            final(self).nodes() == old(self).nodes(),
            final(self).spec_config() == old(self).spec_config(),
            final(self).wf() == old(self).wf(),
            old(self).tasks().len() == 0 ==> r is None && final(self).tasks() == old(self).tasks(),
            old(self).tasks().len() > 0 ==> {
                &&& r is Some
                &&& r->Some_0 == old(self).tasks()[pop_index(old(self).tasks())].payload
                &&& final(self).tasks() == old(self).tasks().remove(pop_index(old(self).tasks()))
            },
    {
        match self.task_queue.pop() {
            Some(item) => Some(item.payload),
            None => None,
        }
    }

    /// Register a freshly spawned child process as a delegation node under
    /// its parent: a Leaf node in Running state carrying the child pid, and
    /// the parent's child set gains the node id. Registering under an id
    /// already in use is refused, so a standing node is never overwritten
    /// and its id never silently reused.
    pub fn register_child_node(
        &mut self,
        node_id: String,
        parent_id: &str,
        task: &DelegationTask,
        child_pid: u32,
        now: u64,
    ) -> (r: Result<(), DelegationError>)
        requires
            old(self).wf(),
        ensures
            final(self).wf(),
            final(self).tasks() == old(self).tasks(),
            final(self).spec_config() == old(self).spec_config(),
            !old(self).has_node(parent_id@) ==> r == Err::<
                (),
                DelegationError,
            >(DelegationError::DelegatorNotFound) && final(self).nodes() == old(self).nodes(),
            old(self).has_node(parent_id@) && old(self).has_node(node_id@) ==> r == Err::<
                (),
                DelegationError,
            >(DelegationError::InsufficientAuthority) && final(self).nodes() == old(self).nodes(),
            old(self).has_node(parent_id@) && !old(self).has_node(node_id@) ==> {
                &&& r is Ok
                &&& final(self).has_node(node_id@)
                &&& final(self).node_at(node_id@).unix_pid == Some(child_pid)
                &&& final(self).node_at(node_id@).parent_node_id matches Some(p) && p@ == parent_id@
                &&& final(self).node_at(node_id@).delegation_authority == DelegationAuthority::Leaf
                &&& final(self).node_at(node_id@).execution_state
                    matches ProcessExecutionState::Running { started_at } && started_at == now
                &&& final(self).node_at(node_id@).timeout_seconds == task.timeout_seconds
                &&& final(self).node_at(node_id@).fault_score_milli == 0
                &&& final(self).has_node(parent_id@)
                &&& final(self).node_at(parent_id@).child_node_ids@.len() == old(self).node_at(
                    parent_id@,
                ).child_node_ids@.len() + 1
                &&& final(self).node_at(parent_id@).child_node_ids@.last()@ == node_id@
            },
    {
        let parent_index = match self.find_node(parent_id) {
            Some(i) => i,
            None => {
                return Err(DelegationError::DelegatorNotFound);
            },
        };
        if self.find_node(node_id.as_str()).is_some() {
            return Err(DelegationError::InsufficientAuthority);
        }
        let node = DelegationNode {
            node_id: node_id.clone(),
            unix_pid: Some(child_pid),
            parent_node_id: Some(String::from_str(parent_id)),
            child_node_ids: Vec::new(),
            command_line: task.command.clone(),
            fault_score_milli: 0,
            last_heartbeat: now,
            delegation_authority: DelegationAuthority::Leaf,
            execution_state: ProcessExecutionState::Running { started_at: now },
            timeout_seconds: task.timeout_seconds,
            proof_nonce: None,
            work_difficulty: self.config.proof_of_work_difficulty,
        };
        self.upsert_node(node);
        let ghost mid = *self;
        let parent_index_now = match self.find_node(parent_id) {
            Some(i) => i,
            None => {
                proof {
                    assert(false);
                }
                unreached()
            },
        };
        let ghost before = self.nodes@;
        self.nodes[parent_index_now].child_node_ids.push(node_id);
        proof {
            assert(forall|j: int|
                0 <= j < self.nodes@.len() ==> self.nodes@[j].node_id@ == before[j].node_id@);
            assert(forall|j: int|
                0 <= j < self.nodes@.len() ==> (#[trigger] self.nodes@[j]).fault_score_milli
                    == before[j].fault_score_milli);
            assert(self.wf());
            self.lemma_node_index_unique(parent_index_now as int, parent_id@);
            mid.lemma_node_index_unique(parent_index_now as int, parent_id@);
            let child_idx = mid.node_index(node_id@);
            assert(mid.nodes()[child_idx].node_id@ == node_id@);
            assert(child_idx != parent_index_now as int);
            assert(self.nodes()[child_idx] == mid.nodes()[child_idx]);
            self.lemma_node_index_unique(child_idx, node_id@);
        }
        Ok(())
    }
}

/// The node's heartbeat is older than the staleness window at time `now`.
pub open spec fn spec_is_stale(node: DelegationNode, now: u64, window: u64) -> bool {
    node.last_heartbeat + window < now
}

/// The two nodes agree on everything but the fault score.
pub open spec fn same_except_fault(a: DelegationNode, b: DelegationNode) -> bool {
    a == (DelegationNode { fault_score_milli: a.fault_score_milli, ..b })
}

/// The node is running and its deadline has passed at time `now`.
pub open spec fn spec_timed_out(node: DelegationNode, now: u64) -> bool {
    match node.execution_state {
        ProcessExecutionState::Running { started_at } => started_at + node.timeout_seconds < now,
        _ => false,
    }
}

impl ProcessDelegationTree {
    /// One heartbeat tick over every node: a node whose heartbeat is older
    /// than the staleness window is raised to the Critical band; every other
    /// node's fault score decays by a factor of 0.9, floored at zero, so it
    /// never increases.
    pub fn heartbeat_tick(&mut self, now: u64)
        requires
            old(self).wf(),
        ensures
            final(self).wf(),
            final(self).tasks() == old(self).tasks(),
            final(self).spec_config() == old(self).spec_config(),
            final(self).nodes().len() == old(self).nodes().len(),
            forall|i: int|
                0 <= i < old(self).nodes().len() ==> same_except_fault(
                    #[trigger] final(self).nodes()[i],
                    old(self).nodes()[i],
                ),
            forall|i: int|
                0 <= i < old(self).nodes().len() && spec_is_stale(
                    #[trigger] old(self).nodes()[i],
                    now,
                    old(self).spec_config().heartbeat_stale_window,
                ) ==> final(self).nodes()[i].fault_score_milli == (if old(self).nodes()[i].fault_score_milli >= 3000 {
                    old(self).nodes()[i].fault_score_milli as int
                } else {
                    3000int
                }),
            forall|i: int|
                0 <= i < old(self).nodes().len() && !spec_is_stale(
                    #[trigger] old(self).nodes()[i],
                    now,
                    old(self).spec_config().heartbeat_stale_window,
                ) ==> final(self).nodes()[i].fault_score_milli == spec_fault_decay(
                    old(self).nodes()[i].fault_score_milli,
                ) && final(self).nodes()[i].fault_score_milli
                    <= old(self).nodes()[i].fault_score_milli,
    {
        let window = self.config.heartbeat_stale_window;
        let ghost start = self.nodes@;
        let mut i: usize = 0;
        while i < self.nodes.len()
            invariant
                i <= start.len(),
                self.nodes@.len() == start.len(),
                self.task_queue@ == old(self).task_queue@,
                self.config == old(self).config,
                window == old(self).spec_config().heartbeat_stale_window,
                start == old(self).nodes(),
                forall|j: int|
                    0 <= j < start.len() ==> same_except_fault(
                        #[trigger] self.nodes@[j],
                        start[j],
                    ),
                forall|j: int|
                    i <= j < start.len() ==> #[trigger] self.nodes@[j] == start[j],
                forall|j: int|
                    0 <= j < i && spec_is_stale(#[trigger] start[j], now, window)
                        ==> self.nodes@[j].fault_score_milli == (if start[j].fault_score_milli
                        >= 3000 {
                        start[j].fault_score_milli as int
                    } else {
                        3000int
                    }),
                forall|j: int|
                    0 <= j < i && !spec_is_stale(#[trigger] start[j], now, window)
                        ==> self.nodes@[j].fault_score_milli == spec_fault_decay(
                        start[j].fault_score_milli,
                    ),
                forall|j: int|
                    0 <= j < start.len() ==> (#[trigger] start[j]).fault_score_milli <= 12000,
                forall|j: int|
                    0 <= j < self.nodes@.len() ==> (#[trigger] self.nodes@[j]).fault_score_milli
                        <= 12000,
            decreases start.len() - i,
        {
            let last = self.nodes[i].last_heartbeat;
            let stale = last < now && now - last > window;
            if stale {
                if self.nodes[i].fault_score_milli < 3000 {
                    self.nodes[i].fault_score_milli = 3000;
                }
            } else {
                let score = self.nodes[i].fault_score_milli;
                self.nodes[i].fault_score_milli = (score * 9) / 10;
            }
            i += 1;
        }
        proof {
            assert(forall|j: int|
                0 <= j < self.nodes@.len() ==> self.nodes@[j].node_id@ == start[j].node_id@);
        }
    }

    /// Record a heartbeat message from a node: its staleness clock resets.
    pub fn record_heartbeat(&mut self, node_id: &str, now: u64)
        requires
            old(self).wf(),
        ensures
            final(self).wf(),
            final(self).tasks() == old(self).tasks(),
            final(self).spec_config() == old(self).spec_config(),
            !old(self).has_node(node_id@) ==> final(self).nodes() == old(self).nodes(),
            old(self).has_node(node_id@) ==> {
                &&& final(self).has_node(node_id@)
                &&& final(self).node_at(node_id@).last_heartbeat == now
                &&& final(self).node_at(node_id@).fault_score_milli == old(self).node_at(
                    node_id@,
                ).fault_score_milli
                &&& final(self).node_at(node_id@).execution_state == old(self).node_at(
                    node_id@,
                ).execution_state
                &&& forall|n: Seq<char>|
                    n != node_id@ ==> {
                        &&& final(self).has_node(n) == old(self).has_node(n)
                        &&& (old(self).has_node(n) ==> final(self).node_at(n) == old(self).node_at(
                            n,
                        ))
                    }
            },
    {
        let i: usize = match self.find_node(node_id) {
            Some(i) => i,
            None => {
                return ;
            },
        };
        let ghost before = self.nodes@;
        self.nodes[i].last_heartbeat = now;
        proof {
            assert(forall|j: int|
                0 <= j < self.nodes@.len() ==> self.nodes@[j].node_id@ == before[j].node_id@);
            assert(forall|j: int|
                0 <= j < self.nodes@.len() ==> (#[trigger] self.nodes@[j]).fault_score_milli
                    == before[j].fault_score_milli);
            assert(self.wf());
            self.lemma_node_index_unique(i as int, node_id@);
            assert forall|n: Seq<char>| n != node_id@ implies {
                &&& self.has_node(n) == old(self).has_node(n)
                &&& (old(self).has_node(n) ==> self.node_at(n) == old(self).node_at(n))
            } by {
                if old(self).has_node(n) {
                    let j = old(self).node_index(n);
                    assert(old(self).nodes()[j].node_id@ == n);
                    assert(j != i as int);
                    old(self).lemma_node_index_unique(j, n);
                    self.lemma_node_index_unique(j, n);
                } else {
                    if self.has_node(n) {
                        let j = self.node_index(n);
                        assert(old(self).nodes()[j].node_id@ == n);
                    }
                }
            }
        }
    }

    /// Raise a node's fault score by one thousandth-scaled severity point
    /// per reported level, saturating at the top of the Panic band.
    pub fn record_fault_report(&mut self, node_id: &str, severity: u8)
        requires
            old(self).wf(),
        ensures
            final(self).wf(),
            final(self).tasks() == old(self).tasks(),
            final(self).spec_config() == old(self).spec_config(),
            !old(self).has_node(node_id@) ==> final(self).nodes() == old(self).nodes(),
            old(self).has_node(node_id@) ==> {
                &&& final(self).has_node(node_id@)
                &&& same_except_fault(
                    final(self).node_at(node_id@),
                    old(self).node_at(node_id@),
                )
                &&& final(self).node_at(node_id@).fault_score_milli == (if old(self).node_at(
                    node_id@,
                ).fault_score_milli + severity * 1000 <= 12000 {
                    old(self).node_at(node_id@).fault_score_milli + severity * 1000
                } else {
                    12000int
                })
                &&& forall|n: Seq<char>|
                    n != node_id@ ==> {
                        &&& final(self).has_node(n) == old(self).has_node(n)
                        &&& (old(self).has_node(n) ==> final(self).node_at(n) == old(self).node_at(
                            n,
                        ))
                    }
            },
    {
        let i: usize = match self.find_node(node_id) {
            Some(i) => i,
            None => {
                return ;
            },
        };
        let ghost before = self.nodes@;
        let bump: u32 = (severity as u32) * 1000;
        let score = self.nodes[i].fault_score_milli;
        self.nodes[i].fault_score_milli = if score + bump <= 12000 {
            score + bump
        } else {
            12000
        };
        proof {
            assert(forall|j: int|
                0 <= j < self.nodes@.len() ==> self.nodes@[j].node_id@ == before[j].node_id@);
            assert(self.wf());
            self.lemma_node_index_unique(i as int, node_id@);
            assert forall|n: Seq<char>| n != node_id@ implies {
                &&& self.has_node(n) == old(self).has_node(n)
                &&& (old(self).has_node(n) ==> self.node_at(n) == old(self).node_at(n))
            } by {
                if old(self).has_node(n) {
                    let j = old(self).node_index(n);
                    assert(old(self).nodes()[j].node_id@ == n);
                    assert(j != i as int);
                    old(self).lemma_node_index_unique(j, n);
                    self.lemma_node_index_unique(j, n);
                } else {
                    if self.has_node(n) {
                        let j = self.node_index(n);
                        assert(old(self).nodes()[j].node_id@ == n);
                    }
                }
            }
        }
    }

    /// Node ids whose fault level has reached the Danger band or above:
    /// the candidates for the fault-escalation path.
    pub fn escalation_candidates(&self) -> (r: Vec<String>)
        requires
            self.wf(),
        ensures
            forall|p: int|
                0 <= p < r@.len() ==> self.has_node(#[trigger] r@[p]@) && self.node_at(
                    r@[p]@,
                ).fault_score_milli >= 6000,
            forall|i: int|
                0 <= i < self.nodes().len() && (#[trigger] self.nodes()[i]).fault_score_milli
                    >= 6000 ==> exists|p: int| 0 <= p < r@.len() && #[trigger] r@[p]@
                    == self.nodes()[i].node_id@,
    {
        let mut out: Vec<String> = Vec::new();
        let mut i: usize = 0;
        while i < self.nodes.len()
            invariant
                self.wf(),
                i <= self.nodes().len(),
                forall|p: int|
                    0 <= p < out@.len() ==> self.has_node(#[trigger] out@[p]@) && self.node_at(
                        out@[p]@,
                    ).fault_score_milli >= 6000,
                forall|j: int|
                    0 <= j < i && (#[trigger] self.nodes()[j]).fault_score_milli >= 6000
                        ==> exists|p: int| 0 <= p < out@.len() && #[trigger] out@[p]@
                        == self.nodes()[j].node_id@,
            decreases self.nodes().len() - i,
        {
            if self.nodes[i].fault_score_milli >= 6000 {
                proof {
                    self.lemma_node_index_unique(i as int, self.nodes()[i as int].node_id@);
                }
                let ghost out0 = out@;
                out.push(self.nodes[i].node_id.clone());
                proof {
                    assert forall|j: int|
                        0 <= j < i + 1 && (#[trigger] self.nodes()[j]).fault_score_milli
                            >= 6000 implies exists|p: int|
                        0 <= p < out@.len() && #[trigger] out@[p]@ == self.nodes()[j].node_id@ by {
                        if j < i {
                            let p = choose|p: int|
                                0 <= p < out0.len() && #[trigger] out0[p]@
                                    == self.nodes()[j].node_id@;
                            assert(out@[p]@ == self.nodes()[j].node_id@);
                        } else {
                            assert(out@[out@.len() - 1]@ == self.nodes()[i as int].node_id@);
                        }
                    }
                }
            }
            i += 1;
        }
        out
    }

    /// Drop every occurrence of the child id from the parent's child set.
    fn remove_child_ref(&mut self, parent_index: usize, child_id: &String)
        requires
            old(self).wf(),
            parent_index < old(self).nodes().len(),
        ensures
            final(self).wf(),
            final(self).tasks() == old(self).tasks(),
            final(self).spec_config() == old(self).spec_config(),
            final(self).nodes().len() == old(self).nodes().len(),
            forall|j: int|
                0 <= j < old(self).nodes().len() && j != parent_index ==> final(self).nodes()[j]
                    == old(self).nodes()[j],
            same_except_children(
                final(self).nodes()[parent_index as int],
                old(self).nodes()[parent_index as int],
            ),
            spec_children_cleaned(
                old(self).nodes()[parent_index as int].child_node_ids@,
                final(self).nodes()[parent_index as int].child_node_ids@,
                child_id@,
            ),
    {
        let ghost before = self.nodes@;
        let ghost old_children_view = self.nodes@[parent_index as int].child_node_ids@;
        let mut kept: Vec<String> = Vec::new();
        let mut q: usize = 0;
        while q < self.nodes[parent_index].child_node_ids.len()
            invariant
                self == old(self),
                parent_index < self.nodes@.len(),
                old_children_view == self.nodes@[parent_index as int].child_node_ids@,
                q <= old_children_view.len(),
                forall|p: int| 0 <= p < kept@.len() ==> (#[trigger] kept@[p])@ != child_id@,
                forall|t: int|
                    0 <= t < q && (#[trigger] old_children_view[t])@ != child_id@ ==> exists|p: int|
                        0 <= p < kept@.len() && (#[trigger] kept@[p])@ == old_children_view[t]@,
            decreases old_children_view.len() - q,
        {
            let ghost kept0 = kept@;
            if !(self.nodes[parent_index].child_node_ids[q] == *child_id) {
                kept.push(self.nodes[parent_index].child_node_ids[q].clone());
                proof {
                    assert(kept@.last()@ == old_children_view[q as int]@);
                    assert forall|t: int|
                        0 <= t < q + 1 && (#[trigger] old_children_view[t])@
                            != child_id@ implies exists|p: int|
                        0 <= p < kept@.len() && (#[trigger] kept@[p])@ == old_children_view[t]@ by {
                        if t < q {
                            let p = choose|p: int|
                                0 <= p < kept0.len() && (#[trigger] kept0[p])@
                                    == old_children_view[t]@;
                            assert(kept@[p]@ == old_children_view[t]@);
                        } else {
                            assert(kept@[kept@.len() - 1]@ == old_children_view[t]@);
                        }
                    }
                }
            }
            q += 1;
        }
        let ghost kept_view = kept@;
        self.nodes[parent_index].child_node_ids = kept;
        proof {
            assert(forall|j: int|
                0 <= j < self.nodes@.len() ==> self.nodes@[j].node_id@ == before[j].node_id@);
            assert(forall|j: int|
                0 <= j < self.nodes@.len() ==> (#[trigger] self.nodes@[j]).fault_score_milli
                    == before[j].fault_score_milli);
            assert(self.wf());
            assert(self.nodes@[parent_index as int].child_node_ids@ == kept_view);
            assert forall|t: int|
                0 <= t < old_children_view.len() && (#[trigger] old_children_view[t])@
                    != child_id@ implies exists|p: int|
                0 <= p < self.nodes()[parent_index as int].child_node_ids@.len() && (
                #[trigger] self.nodes()[parent_index as int].child_node_ids@[p])@
                    == old_children_view[t]@ by {
                let p = choose|p: int|
                    0 <= p < kept_view.len() && (#[trigger] kept_view[p])@ == old_children_view[t]@;
                assert(self.nodes()[parent_index as int].child_node_ids@[p]@
                    == old_children_view[t]@);
            }
        }
    }
}


/// Relies on uuid::Uuid::new_v4 and its hyphenated text form: 36
/// characters; the value is random, so nothing more is promised of it.
#[verifier::external_body]
fn uuid_v4_string() -> (r: String)
    ensures
        r@.len() == 36,
{
    uuid::Uuid::new_v4().to_string()
}

/// A fresh delegate node id: a random unique suffix behind the delegate
/// prefix.
pub fn fresh_delegate_id() -> (r: String)
    ensures
        r@.len() == 45,
        r@.subrange(0, 9) == "delegate-"@,
{
    let suffix = uuid_v4_string();
    let id = String::from_str("delegate-").concat(suffix.as_str());
    proof {
        reveal_strlit("delegate-");
        assert(id@.subrange(0, 9) =~= "delegate-"@);
    }
    id
}

/// The node's state machine sits in Running.
pub open spec fn spec_is_running(n: DelegationNode) -> bool {
    n.execution_state matches ProcessExecutionState::Running { .. }
}

/// The monitor observation that forces a termination: the node is running,
/// the poll still sees it alive, and its deadline has passed.
pub open spec fn spec_monitor_timeout_case(
    t: ProcessDelegationTree,
    node_id: Seq<char>,
    poll: PollResult,
    now: u64,
) -> bool {
    &&& t.has_node(node_id)
    &&& spec_is_running(t.node_at(node_id))
    &&& poll is StillRunning
    &&& spec_timed_out(t.node_at(node_id), now)
}

/// The two nodes agree on everything but the execution state.
pub open spec fn same_except_state(a: DelegationNode, b: DelegationNode) -> bool {
    a == (DelegationNode { execution_state: a.execution_state, ..b })
}

/// The two nodes agree on everything but the child id set.
pub open spec fn same_except_children(a: DelegationNode, b: DelegationNode) -> bool {
    a == (DelegationNode { child_node_ids: a.child_node_ids, ..b })
}

/// Every node whose id is not in `except` is untouched between the two
/// registry states: registered in one iff in the other, with the same
/// record.
pub open spec fn spec_node_frame(
    t_old: ProcessDelegationTree,
    t_new: ProcessDelegationTree,
    except: Set<Seq<char>>,
) -> bool {
    forall|n: Seq<char>|
        !except.contains(n) ==> {
            &&& #[trigger] t_new.has_node(n) == t_old.has_node(n)
            &&& (t_old.has_node(n) ==> t_new.node_at(n) == t_old.node_at(n))
        }
}

/// A child list cleaned of one id: the id is gone and every other entry
/// survives.
pub open spec fn spec_children_cleaned(
    old_children: Seq<String>,
    new_children: Seq<String>,
    removed: Seq<char>,
) -> bool {
    &&& forall|q: int| 0 <= q < new_children.len() ==> (#[trigger] new_children[q])@ != removed
    &&& forall|q: int|
        0 <= q < old_children.len() && (#[trigger] old_children[q])@ != removed ==> exists|p: int|
            0 <= p < new_children.len() && (#[trigger] new_children[p])@ == old_children[q]@
}

/// The bookkeeping that takes one node's id out of its parent's child set:
/// when the node has a registered parent other than itself, the parent's
/// record changes only in its child list, which is cleaned of the id, and
/// every node other than the two is untouched; without such a parent only
/// the node itself may change.
pub open spec fn spec_parent_unlinked(
    t_old: ProcessDelegationTree,
    t_new: ProcessDelegationTree,
    node_id: Seq<char>,
) -> bool {
    match t_old.node_at(node_id).parent_node_id {
        Some(par) => {
            if t_old.has_node(par@) && par@ != node_id {
                &&& t_new.has_node(par@)
                &&& same_except_children(t_new.node_at(par@), t_old.node_at(par@))
                &&& spec_children_cleaned(
                    t_old.node_at(par@).child_node_ids@,
                    t_new.node_at(par@).child_node_ids@,
                    node_id,
                )
                &&& spec_node_frame(t_old, t_new, Set::empty().insert(node_id).insert(par@))
            } else {
                spec_node_frame(t_old, t_new, Set::empty().insert(node_id))
            }
        },
        None => spec_node_frame(t_old, t_new, Set::empty().insert(node_id)),
    }
}

/// Introduction rule for `spec_parent_unlinked` in the case of a
/// registered parent distinct from the node.
proof fn lemma_parent_unlinked_intro(
    t0: ProcessDelegationTree,
    t1: ProcessDelegationTree,
    node_id: Seq<char>,
    par_name: Seq<char>,
)
    requires
        t0.node_at(node_id).parent_node_id matches Some(p) && p@ == par_name,
        t0.has_node(par_name),
        par_name != node_id,
        t1.has_node(par_name),
        same_except_children(t1.node_at(par_name), t0.node_at(par_name)),
        spec_children_cleaned(
            t0.node_at(par_name).child_node_ids@,
            t1.node_at(par_name).child_node_ids@,
            node_id,
        ),
        spec_node_frame(t0, t1, Set::empty().insert(node_id).insert(par_name)),
    ensures
        spec_parent_unlinked(t0, t1, node_id),
{
}

/// The parent-unlink relation survives a later change that touches only
/// the node itself.
proof fn lemma_parent_unlinked_compose(
    t0: ProcessDelegationTree,
    t1: ProcessDelegationTree,
    t2: ProcessDelegationTree,
    node_id: Seq<char>,
)
    requires
        spec_parent_unlinked(t0, t1, node_id),
        spec_node_frame(t1, t2, Set::empty().insert(node_id)),
    ensures
        spec_parent_unlinked(t0, t2, node_id),
{
    match t0.node_at(node_id).parent_node_id {
        Some(par) => {
            if t0.has_node(par@) && par@ != node_id {
                assert(!Set::empty().insert(node_id).contains(par@));
                assert(t2.has_node(par@) == t1.has_node(par@));
                assert(t2.node_at(par@) == t1.node_at(par@));
                assert forall|n: Seq<char>|
                    !Set::empty().insert(node_id).insert(par@).contains(n) implies {
                    &&& #[trigger] t2.has_node(n) == t0.has_node(n)
                    &&& (t0.has_node(n) ==> t2.node_at(n) == t0.node_at(n))
                } by {
                    assert(!Set::empty().insert(node_id).contains(n));
                    assert(t1.has_node(n) == t0.has_node(n));
                    assert(t2.has_node(n) == t1.has_node(n));
                }
            } else {
                assert forall|n: Seq<char>|
                    !Set::empty().insert(node_id).contains(n) implies {
                    &&& #[trigger] t2.has_node(n) == t0.has_node(n)
                    &&& (t0.has_node(n) ==> t2.node_at(n) == t0.node_at(n))
                } by {
                    assert(t1.has_node(n) == t0.has_node(n));
                    assert(t2.has_node(n) == t1.has_node(n));
                }
            }
        },
        None => {
            assert forall|n: Seq<char>|
                !Set::empty().insert(node_id).contains(n) implies {
                &&& #[trigger] t2.has_node(n) == t0.has_node(n)
                &&& (t0.has_node(n) ==> t2.node_at(n) == t0.node_at(n))
            } by {
                assert(t1.has_node(n) == t0.has_node(n));
                assert(t2.has_node(n) == t1.has_node(n));
            }
        },
    }
}

/// Everything one monitor observation of `node_id` may do to the registry,
/// and the action it must return: unknown or non-running nodes change
/// nothing; a natural exit or poll error rewrites only the node's
/// execution state; a node past its deadline is Terminated, unlinked from
/// its parent's child set, and ordered killed; every other node survives
/// unchanged in each case.
pub open spec fn spec_monitor_step_post(
    t0: ProcessDelegationTree,
    t1: ProcessDelegationTree,
    node_id: Seq<char>,
    poll: PollResult,
    now: u64,
    r: MonitorAction,
) -> bool {
    if !t0.has_node(node_id) || !spec_is_running(t0.node_at(node_id)) {
        r is NothingRunning && t1.nodes() == t0.nodes()
    } else {
        match poll {
            PollResult::Exited { exit_code } => {
                &&& t1.has_node(node_id)
                &&& same_except_state(t1.node_at(node_id), t0.node_at(node_id))
                &&& spec_node_frame(t0, t1, Set::empty().insert(node_id))
                &&& (exit_code == 0 ==> (t1.node_at(node_id).execution_state
                    matches ProcessExecutionState::Completed { exit_code: c, completed_at } && c
                    == exit_code && completed_at == now) && (r matches MonitorAction::Reap {
                    succeeded,
                } && succeeded))
                &&& (exit_code != 0 ==> (t1.node_at(node_id).execution_state
                    matches ProcessExecutionState::Failed { failed_at, .. } && failed_at == now)
                    && (r matches MonitorAction::Reap { succeeded } && !succeeded))
            },
            PollResult::PollError => {
                &&& t1.has_node(node_id)
                &&& same_except_state(t1.node_at(node_id), t0.node_at(node_id))
                &&& spec_node_frame(t0, t1, Set::empty().insert(node_id))
                &&& (t1.node_at(node_id).execution_state
                    matches ProcessExecutionState::Failed { failed_at, .. } && failed_at == now)
                &&& (r matches MonitorAction::Reap { succeeded } && !succeeded)
            },
            PollResult::StillRunning => {
                if !spec_timed_out(t0.node_at(node_id), now) {
                    r is KeepRunning && t1.nodes() == t0.nodes()
                } else {
                    &&& t1.has_node(node_id)
                    &&& same_except_state(t1.node_at(node_id), t0.node_at(node_id))
                    &&& (t1.node_at(node_id).execution_state
                        matches ProcessExecutionState::Terminated { signal, terminated_at }
                        && signal == 9 && terminated_at == now)
                    &&& (r matches MonitorAction::KillAndBust { bust_target } && bust_target@
                        == node_id)
                    &&& spec_parent_unlinked(t0, t1, node_id)
                }
            },
        }
    }
}

impl ProcessDelegationTree {
    /// One monitor observation of a delegated node. A natural exit moves
    /// the node to Completed or Failed by exit code. A node still running
    /// past its deadline is moved to Terminated, taken out of its parent's
    /// child set, and the caller is told to kill the process and bust the
    /// node id at High severity. No node stays Running past an observation
    /// made after its deadline, and no other node is touched.
    pub fn process_monitor_step(&mut self, node_id: &str, poll: PollResult, now: u64) -> (r:
        MonitorAction)
        requires
            old(self).wf(),
        ensures
            final(self).wf(),
            final(self).tasks() == old(self).tasks(),
            final(self).spec_config() == old(self).spec_config(),
            spec_monitor_step_post(*old(self), *final(self), node_id@, poll, now, r),
    {
        let i: usize = match self.find_node(node_id) {
            Some(i) => i,
            None => {
                return MonitorAction::NothingRunning;
            },
        };
        let started_at: u64 = match &self.nodes[i].execution_state {
            ProcessExecutionState::Running { started_at } => *started_at,
            _ => {
                return MonitorAction::NothingRunning;
            },
        };
        let timeout = self.nodes[i].timeout_seconds;
        match poll {
            PollResult::Exited { exit_code } => {
                if exit_code == 0 {
                    self.nodes[i].execution_state = ProcessExecutionState::Completed {
                        exit_code,
                        completed_at: now,
                    };
                } else {
                    self.nodes[i].execution_state = ProcessExecutionState::Failed {
                        error_message: String::from_str("process exited with a nonzero code"),
                        failed_at: now,
                    };
                }
                proof {
                    self.lemma_single_update_frame(*old(self), i as int);
                    old(self).lemma_node_index_unique(i as int, node_id@);
                }
                MonitorAction::Reap { succeeded: exit_code == 0 }
            },
            PollResult::PollError => {
                self.nodes[i].execution_state = ProcessExecutionState::Failed {
                    error_message: String::from_str("process handle could not be polled"),
                    failed_at: now,
                };
                proof {
                    self.lemma_single_update_frame(*old(self), i as int);
                    old(self).lemma_node_index_unique(i as int, node_id@);
                }
                MonitorAction::Reap { succeeded: false }
            },
            PollResult::StillRunning => {
                let timed_out = started_at < now && now - started_at > timeout;
                if !timed_out {
                    return MonitorAction::KeepRunning;
                }
                self.nodes[i].execution_state = ProcessExecutionState::Terminated {
                    signal: 9,
                    terminated_at: now,
                };
                proof {
                    self.lemma_single_update_frame(*old(self), i as int);
                    old(self).lemma_node_index_unique(i as int, node_id@);
                }
                let ghost mid = *self;
                let parent: Option<String> = match &self.nodes[i].parent_node_id {
                    Some(p) => Some(p.clone()),
                    None => None,
                };
                let child_key = String::from_str(node_id);
                match parent {
                    Some(parent_name) => {
                        proof {
                            assert(old(self).node_at(node_id@).parent_node_id matches Some(p)
                                && p@ == parent_name@);
                        }
                        match self.find_node(parent_name.as_str()) {
                            Some(pi) => {
                                if pi != i {
                                    self.remove_child_ref(pi, &child_key);
                                    proof {
                                        self.lemma_single_update_frame(mid, pi as int);
                                        mid.lemma_node_index_unique(pi as int, parent_name@);
                                        self.lemma_node_index_unique(i as int, node_id@);
                                        assert(old(self).has_node(parent_name@)) by {
                                            assert(old(self).nodes()[pi as int].node_id@
                                                == parent_name@);
                                        }
                                        assert(parent_name@ != node_id@);
                                        assert(mid.node_at(parent_name@) == old(self).node_at(
                                            parent_name@,
                                        ));
                                        assert(same_except_children(
                                            self.node_at(parent_name@),
                                            old(self).node_at(parent_name@),
                                        ));
                                        assert(spec_children_cleaned(
                                            old(self).node_at(parent_name@).child_node_ids@,
                                            self.node_at(parent_name@).child_node_ids@,
                                            node_id@,
                                        ));
                                        let ghost except = Set::empty().insert(node_id@).insert(
                                            parent_name@,
                                        );
                                        assert forall|n: Seq<char>|
                                            !except.contains(n) implies {
                                            &&& #[trigger] self.has_node(n) == old(self).has_node(
                                                n,
                                            )
                                            &&& (old(self).has_node(n) ==> self.node_at(n) == old(
                                                self,
                                            ).node_at(n))
                                        } by {
                                            assert(n != node_id@ && n != parent_name@);
                                            assert(mid.has_node(n) == old(self).has_node(n));
                                            assert(self.has_node(n) == mid.has_node(n));
                                        }
                                        assert(spec_node_frame(
                                            *old(self),
                                            *self,
                                            Set::empty().insert(node_id@).insert(parent_name@),
                                        ));
                                        lemma_parent_unlinked_intro(
                                            *old(self),
                                            *self,
                                            node_id@,
                                            parent_name@,
                                        );
                                    }
                                } else {
                                    proof {
                                        assert(self.nodes()[pi as int].node_id@ == parent_name@);
                                        assert(self.nodes()[i as int].node_id@ == node_id@);
                                        assert(parent_name@ == node_id@);
                                        assert(spec_parent_unlinked(
                                            *old(self),
                                            *self,
                                            node_id@,
                                        ));
                                    }
                                }
                            },
                            None => {
                                proof {
                                    assert(!old(self).has_node(parent_name@)) by {
                                        if old(self).has_node(parent_name@) {
                                            let j = old(self).node_index(parent_name@);
                                            assert(old(self).nodes()[j].node_id@ == parent_name@);
                                            assert(self.nodes()[j].node_id@ == parent_name@);
                                        }
                                    }
                                    assert(spec_parent_unlinked(*old(self), *self, node_id@));
                                }
                            },
                        }
                    },
                    None => {
                        proof {
                            assert(old(self).node_at(node_id@).parent_node_id is None);
                            assert(spec_parent_unlinked(*old(self), *self, node_id@));
                        }
                    },
                }
                MonitorAction::KillAndBust { bust_target: child_key }
            },
        }
    }

    /// After a change to one node that keeps its id and fault score, the
    /// registry is still well formed, the node is found at the same index,
    /// and every other node is untouched.
    proof fn lemma_single_update_frame(self, t0: ProcessDelegationTree, i: int)
        requires
            t0.wf(),
            self.nodes().len() == t0.nodes().len(),
            0 <= i < t0.nodes().len(),
            forall|j: int|
                0 <= j < t0.nodes().len() && j != i ==> self.nodes()[j] == t0.nodes()[j],
            self.nodes()[i].node_id@ == t0.nodes()[i].node_id@,
            self.nodes()[i].fault_score_milli == t0.nodes()[i].fault_score_milli,
        ensures
            self.wf(),
            self.has_node(t0.nodes()[i].node_id@),
            self.node_index(t0.nodes()[i].node_id@) == i,
            self.node_at(t0.nodes()[i].node_id@) == self.nodes()[i],
            spec_node_frame(t0, self, Set::empty().insert(t0.nodes()[i].node_id@)),
    {
        let id = t0.nodes()[i].node_id@;
        assert(forall|j: int|
            0 <= j < self.nodes().len() ==> self.nodes()[j].node_id@ == t0.nodes()[j].node_id@);
        assert(forall|j: int|
            0 <= j < self.nodes().len() ==> (#[trigger] self.nodes()[j]).fault_score_milli
                == t0.nodes()[j].fault_score_milli);
        assert(self.wf());
        self.lemma_node_index_unique(i, id);
        assert forall|n: Seq<char>| !Set::empty().insert(id).contains(n) implies {
            &&& #[trigger] self.has_node(n) == t0.has_node(n)
            &&& (t0.has_node(n) ==> self.node_at(n) == t0.node_at(n))
        } by {
            assert(n != id);
            if t0.has_node(n) {
                let j = t0.node_index(n);
                assert(t0.nodes()[j].node_id@ == n);
                assert(j != i);
                assert(self.nodes()[j] == t0.nodes()[j]);
                t0.lemma_node_index_unique(j, n);
                self.lemma_node_index_unique(j, n);
            } else {
                if self.has_node(n) {
                    let j = self.node_index(n);
                    assert(self.nodes()[j].node_id@ == n);
                    assert(t0.nodes()[j].node_id@ == n);
                }
            }
        }
    }

    /// Take a node out of the registry once its terminal bookkeeping is
    /// done: the removal the supervisor delays by one observation cycle,
    /// so a status poll can still see the terminal state once. The node's
    /// id also leaves its parent's child set, and its id is free again
    /// only because new delegations draw fresh random ids. Removing an
    /// unknown id changes nothing, so cleanup is idempotent.
    #[verifier::rlimit(60)]
    pub fn remove_node(&mut self, node_id: &str)
        requires
            old(self).wf(),
        ensures
            final(self).wf(),
            final(self).tasks() == old(self).tasks(),
            final(self).spec_config() == old(self).spec_config(),
            !old(self).has_node(node_id@) ==> final(self).nodes() == old(self).nodes(),
            old(self).has_node(node_id@) ==> {
                &&& !final(self).has_node(node_id@)
                &&& final(self).nodes().len() == old(self).nodes().len() - 1
                &&& spec_parent_unlinked(*old(self), *final(self), node_id@)
            },
    {
        let i: usize = match self.find_node(node_id) {
            Some(i) => i,
            None => {
                return ;
            },
        };
        let parent: Option<String> = match &self.nodes[i].parent_node_id {
            Some(p) => Some(p.clone()),
            None => None,
        };
        let child_key = String::from_str(node_id);
        let ghost t0 = *self;
        proof {
            t0.lemma_node_index_unique(i as int, node_id@);
        }
        match &parent {
            Some(parent_name) => {
                proof {
                    assert(t0.node_at(node_id@).parent_node_id matches Some(p) && p@
                        == parent_name@);
                }
                match self.find_node(parent_name.as_str()) {
                    Some(pi) => {
                        if pi != i {
                            self.remove_child_ref(pi, &child_key);
                            proof {
                                self.lemma_single_update_frame(t0, pi as int);
                                t0.lemma_node_index_unique(pi as int, parent_name@);
                                self.lemma_node_index_unique(pi as int, parent_name@);
                                self.lemma_node_index_unique(i as int, node_id@);
                                assert(parent_name@ != node_id@);
                                assert(same_except_children(
                                    self.node_at(parent_name@),
                                    t0.node_at(parent_name@),
                                ));
                                assert(spec_children_cleaned(
                                    t0.node_at(parent_name@).child_node_ids@,
                                    self.node_at(parent_name@).child_node_ids@,
                                    node_id@,
                                ));
                                assert(spec_node_frame(
                                    t0,
                                    *self,
                                    Set::empty().insert(node_id@).insert(parent_name@),
                                )) by {
                                    assert forall|n: Seq<char>|
                                        !Set::empty().insert(node_id@).insert(
                                            parent_name@,
                                        ).contains(n) implies {
                                        &&& #[trigger] self.has_node(n) == t0.has_node(n)
                                        &&& (t0.has_node(n) ==> self.node_at(n) == t0.node_at(n))
                                    } by {
                                        assert(n != parent_name@);
                                    }
                                }
                                lemma_parent_unlinked_intro(t0, *self, node_id@, parent_name@);
                            }
                        } else {
                            proof {
                                assert(self.nodes()[pi as int].node_id@ == parent_name@);
                                assert(self.nodes()[i as int].node_id@ == node_id@);
                                assert(parent_name@ == node_id@);
                                assert(spec_parent_unlinked(t0, *self, node_id@));
                            }
                        }
                    },
                    None => {
                        proof {
                            assert(!t0.has_node(parent_name@)) by {
                                if t0.has_node(parent_name@) {
                                    let j = t0.node_index(parent_name@);
                                    assert(t0.nodes()[j].node_id@ == parent_name@);
                                    assert(self.nodes()[j].node_id@ == parent_name@);
                                }
                            }
                            assert(spec_parent_unlinked(t0, *self, node_id@));
                        }
                    },
                }
            },
            None => {
                proof {
                    assert(t0.node_at(node_id@).parent_node_id is None);
                    assert(spec_parent_unlinked(t0, *self, node_id@));
                }
            },
        }
        let ghost mid = *self;
        proof {
            assert(mid.nodes()[i as int].node_id@ == node_id@);
            mid.lemma_node_index_unique(i as int, node_id@);
        }
        self.nodes.remove(i);
        proof {
            assert(self.nodes@ == mid.nodes().remove(i as int));
            assert(forall|j: int| 0 <= j < i ==> self.nodes()[j] == mid.nodes()[j]);
            assert(forall|j: int|
                i <= j < self.nodes().len() ==> self.nodes()[j] == mid.nodes()[j + 1]);
            assert(self.wf()) by {
                assert forall|p: int, q: int|
                    0 <= p < q < self.nodes().len() implies self.nodes()[p].node_id@
                    != self.nodes()[q].node_id@ by {
                    let p0 = if p < i { p } else { p + 1 };
                    let q0 = if q < i { q } else { q + 1 };
                    assert(self.nodes()[p] == mid.nodes()[p0]);
                    assert(self.nodes()[q] == mid.nodes()[q0]);
                }
                assert forall|p: int|
                    0 <= p < self.nodes().len() implies (
                #[trigger] self.nodes()[p]).fault_score_milli <= 12000 by {
                    let p0 = if p < i { p } else { p + 1 };
                    assert(self.nodes()[p] == mid.nodes()[p0]);
                }
            }
            assert(!self.has_node(node_id@)) by {
                if self.has_node(node_id@) {
                    let j = self.node_index(node_id@);
                    assert(self.nodes()[j].node_id@ == node_id@);
                    let j0 = if j < i { j } else { j + 1 };
                    assert(mid.nodes()[j0].node_id@ == node_id@);
                    assert(j0 != i);
                    mid.lemma_node_index_unique(j0, node_id@);
                }
            }
            assert(spec_node_frame(mid, *self, Set::empty().insert(node_id@))) by {
                assert forall|n: Seq<char>|
                    !Set::empty().insert(node_id@).contains(n) implies {
                    &&& #[trigger] self.has_node(n) == mid.has_node(n)
                    &&& (mid.has_node(n) ==> self.node_at(n) == mid.node_at(n))
                } by {
                    if mid.has_node(n) {
                        let j = mid.node_index(n);
                        assert(mid.nodes()[j].node_id@ == n);
                        assert(j != i as int);
                        let j1 = if j < i { j } else { j - 1 };
                        assert(self.nodes()[j1] == mid.nodes()[j]);
                        mid.lemma_node_index_unique(j, n);
                        self.lemma_node_index_unique(j1, n);
                    } else {
                        if self.has_node(n) {
                            let j = self.node_index(n);
                            assert(self.nodes()[j].node_id@ == n);
                            let j0 = if j < i { j } else { j + 1 };
                            assert(mid.nodes()[j0].node_id@ == n);
                            mid.lemma_node_index_unique(j0, n);
                        }
                    }
                }
            }
            lemma_parent_unlinked_compose(t0, mid, *self, node_id@);
        }
    }
}

/// One monitor observation wired to the cache coordinator: the registry
/// changes exactly as the monitor step dictates, and when the node has
/// outlived its deadline a High-severity bust is issued on the node id,
/// queueing a rebuild at priority 10 if the id is a bound target (busting
/// an unbound id stays a no-op). Outside the timeout case the cache is
/// untouched.
pub fn monitor_and_bust(
    tree: &mut ProcessDelegationTree,
    cache: &mut crate::dimensional_cache::DimensionalCacheManager,
    node_id: &str,
    poll: PollResult,
    now: u64,
) -> (r: MonitorAction)
    requires
        old(tree).wf(),
        old(cache).wf(),
    ensures
        final(tree).wf(),
        final(cache).wf(),
        final(tree).tasks() == old(tree).tasks(),
        final(tree).spec_config() == old(tree).spec_config(),
        spec_monitor_step_post(*old(tree), *final(tree), node_id@, poll, now, r),
        spec_monitor_timeout_case(*old(tree), node_id@, poll, now) ==> {
            &&& (old(cache).has_target(node_id@) ==> {
                &&& final(cache).target_at(node_id@).dimension.cache_state
                    == crate::cache_types::CacheState::Stale
                &&& final(cache).rebuilds().len() == old(cache).rebuilds().len() + 1
                &&& final(cache).rebuilds().last().score == 10
                &&& final(cache).rebuilds().last().payload.cache_id@ == node_id@
            })
            &&& (!old(cache).has_target(node_id@) ==> final(cache).rebuilds() == old(cache).rebuilds() && final(cache).entries() == old(cache).entries())
        },
        !spec_monitor_timeout_case(*old(tree), node_id@, poll, now) ==> *final(cache) == *old(cache),
{
    let action = tree.process_monitor_step(node_id, poll, now);
    let kill = match &action {
        MonitorAction::KillAndBust { .. } => true,
        _ => false,
    };
    if kill {
        cache.bust_cache(node_id, crate::severity::CacheBustSeverity::High);
    }
    action
}


impl ProcessDelegationTree {
    /// Number of registered nodes.
    pub fn node_count(&self) -> (r: usize)
        ensures
            r == self.nodes().len(),
    {
        self.nodes.len()
    }

    /// Number of queued tasks.
    pub fn task_queue_len(&self) -> (r: usize)
        ensures
            r == self.tasks().len(),
    {
        self.task_queue.len()
    }

    /// Fault score (in thousandths) of the named node.
    pub fn node_fault_score_milli(&self, node_id: &str) -> (r: Option<u32>)
        requires
            self.wf(),
        ensures
            self.has_node(node_id@) ==> r == Some(self.node_at(node_id@).fault_score_milli),
            !self.has_node(node_id@) ==> r is None,
    {
        match self.find_node(node_id) {
            Some(i) => Some(self.nodes[i].fault_score_milli),
            None => None,
        }
    }

    /// Execution state of the named node.
    pub fn node_execution_state(&self, node_id: &str) -> (r: Option<ProcessExecutionState>)
        requires
            self.wf(),
        ensures
            !self.has_node(node_id@) ==> r is None,
            self.has_node(node_id@) ==> {
                &&& r is Some
                &&& (self.node_at(node_id@).execution_state is Pending <==> r->Some_0 is Pending)
                &&& (self.node_at(node_id@).execution_state is Spawning <==> r->Some_0 is Spawning)
                &&& (self.node_at(node_id@).execution_state matches
                    ProcessExecutionState::Running { started_at } ==> r->Some_0 ==
                    (ProcessExecutionState::Running { started_at }))
                &&& (self.node_at(node_id@).execution_state matches
                    ProcessExecutionState::Completed { exit_code, completed_at } ==> r->Some_0 ==
                    (ProcessExecutionState::Completed { exit_code, completed_at }))
                &&& (self.node_at(node_id@).execution_state matches
                    ProcessExecutionState::Failed { error_message, failed_at } ==> (r->Some_0
                    matches ProcessExecutionState::Failed { error_message: m, failed_at: f }
                    && m@ == error_message@ && f == failed_at))
                &&& (self.node_at(node_id@).execution_state matches
                    ProcessExecutionState::Terminated { signal, terminated_at } ==> r->Some_0 ==
                    (ProcessExecutionState::Terminated { signal, terminated_at }))
            },
    {
        let i: usize = match self.find_node(node_id) {
            Some(i) => i,
            None => {
                return None;
            },
        };
        match &self.nodes[i].execution_state {
            ProcessExecutionState::Pending => Some(ProcessExecutionState::Pending),
            ProcessExecutionState::Spawning => Some(ProcessExecutionState::Spawning),
            ProcessExecutionState::Running { started_at } => Some(
                ProcessExecutionState::Running { started_at: *started_at },
            ),
            ProcessExecutionState::Completed { exit_code, completed_at } => Some(
                ProcessExecutionState::Completed {
                    exit_code: *exit_code,
                    completed_at: *completed_at,
                },
            ),
            ProcessExecutionState::Failed { error_message, failed_at } => Some(
                ProcessExecutionState::Failed {
                    error_message: error_message.clone(),
                    failed_at: *failed_at,
                },
            ),
            ProcessExecutionState::Terminated { signal, terminated_at } => Some(
                ProcessExecutionState::Terminated {
                    signal: *signal,
                    terminated_at: *terminated_at,
                },
            ),
        }
    }

    /// Child ids of the named node.
    pub fn node_children(&self, node_id: &str) -> (r: Option<Vec<String>>)
        requires
            self.wf(),
        ensures
            !self.has_node(node_id@) ==> r is None,
            self.has_node(node_id@) ==> {
                &&& r is Some
                &&& r->Some_0@.len() == self.node_at(node_id@).child_node_ids@.len()
                &&& forall|q: int|
                    0 <= q < r->Some_0@.len() ==> (#[trigger] r->Some_0@[q])@ == self.node_at(
                        node_id@,
                    ).child_node_ids@[q]@
            },
    {
        let i: usize = match self.find_node(node_id) {
            Some(i) => i,
            None => {
                return None;
            },
        };
        let mut out: Vec<String> = Vec::new();
        let mut q: usize = 0;
        while q < self.nodes[i].child_node_ids.len()
            invariant
                self.wf(),
                i < self.nodes@.len(),
                i as int == self.node_index(node_id@),
                self.has_node(node_id@),
                q <= self.nodes@[i as int].child_node_ids@.len(),
                out@.len() == q,
                forall|t: int|
                    0 <= t < q ==> (#[trigger] out@[t])@
                        == self.nodes@[i as int].child_node_ids@[t]@,
            decreases self.nodes@[i as int].child_node_ids@.len() - q,
        {
            out.push(self.nodes[i].child_node_ids[q].clone());
            q += 1;
        }
        Some(out)
    }
}

} // verus!
