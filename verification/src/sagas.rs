//! The saga engine: long-running workflow state machines that observe
//! domain events, advance their own state through a guarded transition
//! table, and emit follow-up commands.
//!
//! Each saga carries an advisory Markov chain: a table of transition
//! probabilities (in thousandths) and state rewards, used only for planning
//! lookahead, never to decide whether a transition is allowed.

use vstd::prelude::*;
use crate::runtime::{fresh_uuid_raw, now_millis};
use crate::events::MessageIdentity;

verus! {

broadcast use {vstd::std_specs::vec::group_vec_axioms, vstd::seq::group_seq_axioms};

/// Builds the message identity of a root command: one fresh identifier for
/// the message, its correlation and its causation.
pub fn create_root_command() -> (r: MessageIdentity)
    ensures
        r.correlation_id == r.message_id,
        r.causation_id == r.message_id,
{
    let id = fresh_uuid_raw();
    MessageIdentity { correlation_id: id, causation_id: id, message_id: id }
}

/// The states a saga can be in, across all workflow families.
#[derive(Debug, Clone, Copy, PartialEq, Eq, Structural, Hash)]
pub enum SagaState {
    // Lifecycle states
    Initiated,
    InProgress,
    Waiting,
    Completed,
    Failed,
    Cancelled,
    // Policy states
    Draft,
    UnderReview,
    Approved,
    Rejected,
    Active,
    Suspended,
    Archived,
    // Evaluation states
    Evaluating,
    Enforcing,
    Blocked,
    Allowed,
    Remediation,
    // Exemption states
    ExemptionRequested,
    ExemptionUnderReview,
    ExemptionGranted,
    ExemptionDenied,
    ExemptionExpired,
    // Audit states
    AuditScheduled,
    AuditInProgress,
    AuditComplete,
    NonCompliant,
    ComplianceVerified,
}

impl DeepView for SagaState {
    type V = SagaState;

    open spec fn deep_view(&self) -> SagaState {
        *self
    }
}

/// The labelled edges of the saga state machines.
#[derive(Debug, Clone, Copy, PartialEq, Eq, Structural)]
pub enum StateTransition {
    // Lifecycle transitions
    Start,
    Progress,
    Complete,
    Fail,
    Cancel,
    Retry,
    // Policy transitions
    SubmitForReview,
    Approve,
    Reject,
    RequestChanges,
    Activate,
    Suspend,
    Archive,
    // Evaluation transitions
    Evaluate,
    Enforce,
    Allow,
    Block,
    Remediate,
    // Exemption transitions
    RequestExemption,
    ReviewExemption,
    GrantExemption,
    DenyExemption,
    ExpireExemption,
    // Audit transitions
    ScheduleAudit,
    StartAudit,
    CompleteAudit,
    VerifyCompliance,
    ReportViolation,
}

impl DeepView for StateTransition {
    type V = StateTransition;

    open spec fn deep_view(&self) -> StateTransition {
        *self
    }
}

/// Errors a saga can report.
#[derive(Debug)]
pub enum SagaError {
    /// The event asks for a transition the current state does not allow.
    InvalidTransition(SagaState, SagaState),
    /// The saga already completed.
    AlreadyCompleted,
    /// The saga has failed.
    SagaFailed(String),
    /// Data the saga needs is missing.
    MissingData(String),
    /// The saga timed out waiting for an event.
    Timeout,
    /// Two callers advanced the saga concurrently.
    ConcurrentModification,
}

/// Tracking metadata attached to every saga instance.
#[derive(Debug)]
pub struct SagaMetadata {
    /// Unique identifier of this saga instance.
    pub id: u128,
    /// Correlation identifier of the conversation.
    pub correlation_id: u128,
    /// The message that caused this saga, if known.
    pub causation_id: Option<u128>,
    /// When the saga was started, as Unix milliseconds.
    pub initiated_at: i64,
    /// Who started the saga.
    pub initiated_by: String,
    /// When the saga last advanced, as Unix milliseconds.
    pub last_updated: i64,
    /// How many times the saga advanced; saturates rather than wraps.
    pub version: u32,
    /// Free-form tags.
    pub tags: Vec<(String, String)>,
}

impl SagaMetadata {
    /// Creates metadata for a new saga instance started now.
    pub fn new(initiated_by: &str) -> (r: SagaMetadata)
        ensures
            r.initiated_by@ == initiated_by@,
            r.causation_id is None,
            r.version == 1u32,
            r.tags@.len() == 0,
    {
        let now = now_millis();
        SagaMetadata {
            id: fresh_uuid_raw(),
            correlation_id: fresh_uuid_raw(),
            causation_id: None,
            initiated_at: now,
            initiated_by: initiated_by.to_owned(),
            last_updated: now,
            version: 1,
            tags: Vec::new(),
        }
    }

    /// Records the message that caused this saga.
    pub fn with_causation(self, causation_id: u128) -> (r: SagaMetadata)
        ensures
            r == (SagaMetadata { causation_id: Some(causation_id), ..self }),
    {
        SagaMetadata { causation_id: Some(causation_id), ..self }
    }

    /// Marks the saga as advanced now, bumping the version counter; the
    /// counter saturates at its maximum.
    pub fn update(&mut self)
        ensures
            final(self).version == if old(self).version < u32::MAX {
                (old(self).version + 1) as u32
            } else {
                old(self).version
            },
            final(self).id == old(self).id,
            final(self).correlation_id == old(self).correlation_id,
            final(self).causation_id == old(self).causation_id,
            final(self).initiated_at == old(self).initiated_at,
            final(self).initiated_by == old(self).initiated_by,
            final(self).tags == old(self).tags,
    {
        self.last_updated = now_millis();
        if self.version < u32::MAX {
            self.version = self.version + 1;
        }
    }
}

/// The probability of one transition, in thousandths; an edge not in the
/// table has probability zero.
pub open spec fn spec_probability(
    transitions: Seq<(SagaState, SagaState, u32)>,
    from: SagaState,
    to: SagaState,
) -> u32
    decreases transitions,
{
    if transitions.len() == 0 {
        0
    } else if transitions[0].0 == from && transitions[0].1 == to {
        transitions[0].2
    } else {
        spec_probability(transitions.subrange(1, transitions.len() as int), from, to)
    }
}

/// The reward of one state; a state not in the table has reward zero.
pub open spec fn spec_reward(rewards: Seq<(SagaState, i64)>, state: SagaState) -> i64
    decreases rewards,
{
    if rewards.len() == 0 {
        0
    } else if rewards[0].0 == state {
        rewards[0].1
    } else {
        spec_reward(rewards.subrange(1, rewards.len() as int), state)
    }
}

/// Truncating integer division, matching machine division semantics.
pub open spec fn spec_div_trunc(a: int, b: int) -> int {
    if a >= 0 {
        a / b
    } else {
        -((-a) / b)
    }
}

/// The bound all advisory values are clamped to.
pub const VALUE_BOUND: i64 = 0x10_0000_0000_0000;

/// Clamping into the advisory value range.
pub open spec fn spec_clamp(v: int) -> i64 {
    if v > VALUE_BOUND {
        VALUE_BOUND
    } else if v < -VALUE_BOUND {
        (-VALUE_BOUND) as i64
    } else {
        v as i64
    }
}

/// The expected value of a state over a bounded horizon, in thousandths of a
/// reward unit: the state's own reward plus, for each outgoing edge, the
/// discounted (nine tenths) expected value of its target one step shallower,
/// weighted by the edge probability. Every partial sum is clamped to the
/// advisory range.
pub open spec fn spec_expected_value(
    transitions: Seq<(SagaState, SagaState, u32)>,
    rewards: Seq<(SagaState, i64)>,
    from: SagaState,
    horizon: nat,
) -> i64
    decreases horizon, 1int, transitions.len(),
{
    if horizon == 0 {
        spec_clamp(spec_reward(rewards, from) * 1000)
    } else {
        spec_expected_value_sum(
            transitions,
            rewards,
            from,
            horizon,
            transitions,
            spec_clamp(spec_reward(rewards, from) * 1000),
        )
    }
}

/// The fold over the transition table that accumulates the discounted
/// contributions of each outgoing edge.
pub open spec fn spec_expected_value_sum(
    transitions: Seq<(SagaState, SagaState, u32)>,
    rewards: Seq<(SagaState, i64)>,
    from: SagaState,
    horizon: nat,
    remaining: Seq<(SagaState, SagaState, u32)>,
    acc: i64,
) -> i64
    decreases horizon, 0int, remaining.len(),
{
    if horizon == 0 || remaining.len() == 0 {
        acc
    } else {
        let head = remaining[0];
        let next_acc: i64 = if head.0 == from {
            let future = spec_expected_value(
                transitions,
                rewards,
                head.1,
                (horizon - 1) as nat,
            );
            spec_clamp(acc + spec_div_trunc((head.2 as int) * 9 * future, 10000))
        } else {
            acc
        };
        spec_expected_value_sum(
            transitions,
            rewards,
            from,
            horizon,
            remaining.subrange(1, remaining.len() as int),
            next_acc,
        )
    }
}

/// The expected value is always within the advisory bound.
pub proof fn lemma_expected_value_bounded(
    transitions: Seq<(SagaState, SagaState, u32)>,
    rewards: Seq<(SagaState, i64)>,
    from: SagaState,
    horizon: nat,
)
    ensures
        -VALUE_BOUND <= spec_expected_value(transitions, rewards, from, horizon) <= VALUE_BOUND,
    decreases horizon, 1int, transitions.len(),
{
    if horizon == 0 {
    } else {
        lemma_expected_value_sum_bounded(
            transitions,
            rewards,
            from,
            horizon,
            transitions,
            spec_clamp(spec_reward(rewards, from) * 1000),
        );
    }
}

/// The fold over the transition table stays within the advisory bound.
pub proof fn lemma_expected_value_sum_bounded(
    transitions: Seq<(SagaState, SagaState, u32)>,
    rewards: Seq<(SagaState, i64)>,
    from: SagaState,
    horizon: nat,
    remaining: Seq<(SagaState, SagaState, u32)>,
    acc: i64,
)
    requires
        -VALUE_BOUND <= acc <= VALUE_BOUND,
    ensures
        -VALUE_BOUND <= spec_expected_value_sum(
            transitions,
            rewards,
            from,
            horizon,
            remaining,
            acc,
        ) <= VALUE_BOUND,
    decreases horizon, 0int, remaining.len(),
{
    if horizon == 0 || remaining.len() == 0 {
    } else {
        let head = remaining[0];
        let next_acc: i64 = if head.0 == from {
            let future = spec_expected_value(transitions, rewards, head.1, (horizon - 1) as nat);
            spec_clamp(acc + spec_div_trunc((head.2 as int) * 9 * future, 10000))
        } else {
            acc
        };
        lemma_expected_value_sum_bounded(
            transitions,
            rewards,
            from,
            horizon,
            remaining.subrange(1, remaining.len() as int),
            next_acc,
        );
    }
}

/// An advisory Markov chain over saga states: transition probabilities in
/// thousandths and per-state rewards. It never decides whether a
/// transition is allowed.
#[derive(Debug)]
pub struct MarkovChain {
    /// The probability table, one entry per known edge.
    pub transitions: Vec<(SagaState, SagaState, u32)>,
    /// The reward table, one entry per known state.
    pub state_rewards: Vec<(SagaState, i64)>,
}

impl MarkovChain {
    /// Creates an empty chain.
    pub fn new() -> (r: MarkovChain)
        ensures
            r.transitions@.len() == 0,
            r.state_rewards@.len() == 0,
    {
        MarkovChain { transitions: Vec::new(), state_rewards: Vec::new() }
    }

    /// Sets the probability of one edge, in thousandths, replacing an
    /// existing entry for the same edge.
    #[verifier::loop_isolation(false)]
    pub fn add_transition(&mut self, from: SagaState, to: SagaState, probability_per_mille: u32)
        ensures
            spec_probability(final(self).transitions@, from, to) == probability_per_mille,
            final(self).state_rewards@ == old(self).state_rewards@,
            forall|f: SagaState, t: SagaState|
                !(f == from && t == to) ==> spec_probability(final(self).transitions@, f, t)
                    == spec_probability(old(self).transitions@, f, t),
    {
        let ghost pre = self.transitions@;
        let mut i: usize = 0;
        while i < self.transitions.len()
            invariant
                0 <= i <= self.transitions@.len(),
                self.transitions@ == pre,
                self.state_rewards@ == old(self).state_rewards@,
                forall|j: int|
                    0 <= j < i ==> !((#[trigger] pre[j]).0 == from && pre[j].1 == to),
            decreases self.transitions@.len() - i,
        {
            let entry = self.transitions[i];
            if matches_edge(entry.0, entry.1, from, to) {
                self.transitions.set(i, (from, to, probability_per_mille));
                proof {
                    lemma_probability_update(pre, i as int, from, to, probability_per_mille);
                }
                return ;
            }
            i = i + 1;
        }
        self.transitions.push((from, to, probability_per_mille));
        proof {
            lemma_probability_append(pre, from, to, probability_per_mille);
        }
    }

    /// Sets the reward of one state, replacing an existing entry.
    #[verifier::loop_isolation(false)]
    pub fn set_state_reward(&mut self, state: SagaState, reward: i64)
        ensures
            spec_reward(final(self).state_rewards@, state) == reward,
            final(self).transitions@ == old(self).transitions@,
            forall|s: SagaState|
                s != state ==> spec_reward(final(self).state_rewards@, s) == spec_reward(
                    old(self).state_rewards@,
                    s,
                ),
    {
        let ghost pre = self.state_rewards@;
        let mut i: usize = 0;
        while i < self.state_rewards.len()
            invariant
                0 <= i <= self.state_rewards@.len(),
                self.state_rewards@ == pre,
                self.transitions@ == old(self).transitions@,
                forall|j: int| 0 <= j < i ==> (#[trigger] pre[j]).0 != state,
            decreases self.state_rewards@.len() - i,
        {
            let entry = self.state_rewards[i];
            if entry.0 == state {
                self.state_rewards.set(i, (state, reward));
                proof {
                    lemma_reward_update(pre, i as int, state, reward);
                }
                return ;
            }
            i = i + 1;
        }
        self.state_rewards.push((state, reward));
        proof {
            lemma_reward_append(pre, state, reward);
        }
    }

    /// Returns the probability of one edge, in thousandths; an edge not in
    /// the table has probability zero.
    #[verifier::loop_isolation(false)]
    pub fn transition_probability(&self, from: &SagaState, to: &SagaState) -> (r: u32)
        ensures
            r == spec_probability(self.transitions@, *from, *to),
    {
        let ghost all = self.transitions@;
        proof {
            assert(all.subrange(0, all.len() as int) =~= all);
        }
        let mut i: usize = 0;
        while i < self.transitions.len()
            invariant
                0 <= i <= all.len(),
                self.transitions@ == all,
                spec_probability(all, *from, *to) == spec_probability(
                    all.subrange(i as int, all.len() as int),
                    *from,
                    *to,
                ),
            decreases all.len() - i,
        {
            proof {
                let tail = all.subrange(i as int, all.len() as int);
                assert(tail[0] == all[i as int]);
                assert(tail.subrange(1, tail.len() as int) =~= all.subrange(
                    i + 1,
                    all.len() as int,
                ));
            }
            let entry = self.transitions[i];
            if matches_edge(entry.0, entry.1, *from, *to) {
                return entry.2;
            }
            i = i + 1;
        }
        proof {
            assert(all.subrange(i as int, all.len() as int) =~= Seq::<
                (SagaState, SagaState, u32),
            >::empty());
        }
        0
    }

    /// Returns the reward of one state; a state not in the table has reward
    /// zero.
    #[verifier::loop_isolation(false)]
    pub fn state_reward(&self, state: &SagaState) -> (r: i64)
        ensures
            r == spec_reward(self.state_rewards@, *state),
    {
        let ghost all = self.state_rewards@;
        proof {
            assert(all.subrange(0, all.len() as int) =~= all);
        }
        let mut i: usize = 0;
        while i < self.state_rewards.len()
            invariant
                0 <= i <= all.len(),
                self.state_rewards@ == all,
                spec_reward(all, *state) == spec_reward(
                    all.subrange(i as int, all.len() as int),
                    *state,
                ),
            decreases all.len() - i,
        {
            proof {
                let tail = all.subrange(i as int, all.len() as int);
                assert(tail[0] == all[i as int]);
                assert(tail.subrange(1, tail.len() as int) =~= all.subrange(
                    i + 1,
                    all.len() as int,
                ));
            }
            let entry = self.state_rewards[i];
            if entry.0 == *state {
                return entry.1;
            }
            i = i + 1;
        }
        proof {
            assert(all.subrange(i as int, all.len() as int) =~= Seq::<(SagaState, i64)>::empty());
        }
        0
    }

    /// Computes the expected value of a state over a bounded horizon, in
    /// thousandths of a reward unit: an advisory planning aid only.
    #[verifier::loop_isolation(false)]
    pub fn expected_value(&self, from: &SagaState, horizon: usize) -> (r: i64)
        ensures
            r == spec_expected_value(
                self.transitions@,
                self.state_rewards@,
                *from,
                horizon as nat,
            ),
        decreases horizon,
    {
        let base = clamp_value((self.state_reward(from) as i128) * 1000);
        if horizon == 0 {
            return base;
        }
        let ghost all = self.transitions@;
        let mut acc: i64 = base;
        proof {
            assert(all.subrange(0, all.len() as int) =~= all);
        }
        let ghost rewards = self.state_rewards@;
        let mut i: usize = 0;
        while i < self.transitions.len()
            invariant
                0 <= i <= all.len(),
                self.transitions@ == all,
                horizon >= 1,
                self.state_rewards@ == rewards,
                -VALUE_BOUND <= acc <= VALUE_BOUND,
                spec_expected_value(all, rewards, *from, horizon as nat)
                    == spec_expected_value_sum(
                    all,
                    rewards,
                    *from,
                    horizon as nat,
                    all.subrange(i as int, all.len() as int),
                    acc,
                ),
            decreases all.len() - i,
        {
            proof {
                let tail = all.subrange(i as int, all.len() as int);
                assert(tail[0] == all[i as int]);
                assert(tail.subrange(1, tail.len() as int) =~= all.subrange(
                    i + 1,
                    all.len() as int,
                ));
            }
            let entry = self.transitions[i];
            if entry.0 == *from {
                let future = self.expected_value(&entry.1, horizon - 1);
                proof {
                    lemma_expected_value_bounded(
                        self.transitions@,
                        self.state_rewards@,
                        entry.1,
                        (horizon - 1) as nat,
                    );
                }
                let weighted = weighted_future(entry.2, future);
                acc = clamp_value((acc as i128) + weighted);
            }
            i = i + 1;
        }
        proof {
            assert(all.subrange(i as int, all.len() as int) =~= Seq::<
                (SagaState, SagaState, u32),
            >::empty());
        }
        acc
    }

    /// Suggests a path from one state toward another: a greedy walk of at
    /// most ten hops that at each step follows the outgoing edge whose
    /// target maximizes the probability-weighted expected value. Every
    /// consecutive pair of the result is an edge of the table, the walk
    /// starts at the given state, and it ends only on reaching the target,
    /// on a state with no outgoing edge, or at the hop bound. Advisory only.
    #[verifier::loop_isolation(false)]
    pub fn optimal_path(&self, from: &SagaState, to: &SagaState) -> (r: Vec<SagaState>)
        ensures
            r@.len() >= 1,
            r@[0] == *from,
            r@.len() <= 11,
            forall|i: int|
                0 <= i < r@.len() - 1 ==> spec_probability(
                    self.transitions@,
                    #[trigger] r@[i],
                    r@[i + 1],
                ) > 0,
            r@.last() == *to || (forall|t: SagaState|
                #[trigger] spec_probability(self.transitions@, r@.last(), t) == 0) || r@.len()
                == 11,
    {
        let mut path: Vec<SagaState> = Vec::new();
        path.push(*from);
        let mut current: SagaState = *from;
        let mut hops: usize = 0;
        while hops < 10
            invariant
                path@.len() == hops + 1,
                hops <= 10,
                path@[0] == *from,
                path@[path@.len() - 1] == current,
                forall|i: int|
                    0 <= i < path@.len() - 1 ==> spec_probability(
                        self.transitions@,
                        #[trigger] path@[i],
                        path@[i + 1],
                    ) > 0,
            decreases 10 - hops,
        {
            if current == *to {
                return path;
            }
            let mut best_next: Option<SagaState> = None;
            let mut best_value: i64 = i64::MIN;
            let mut k: usize = 0;
            while k < self.transitions.len()
                invariant
                    0 <= k <= self.transitions@.len(),
                    best_next matches Some(n) ==> spec_probability(
                        self.transitions@,
                        current,
                        n,
                    ) > 0,
                    best_next is None ==> forall|j: int|
                        0 <= j < k && (#[trigger] self.transitions@[j]).0 == current
                            ==> spec_probability(
                            self.transitions@,
                            current,
                            self.transitions@[j].1,
                        ) == 0,
                decreases self.transitions@.len() - k,
            {
                let entry = self.transitions[k];
                if entry.0 == current {
                    let prob = self.transition_probability(&current, &entry.1);
                    if prob > 0 {
                        let value = mul_prob(prob, self.expected_value(&entry.1, 5));
                        if best_next.is_none() || value > best_value {
                            best_value = value;
                            best_next = Some(entry.1);
                        }
                    }
                }
                k = k + 1;
            }
            match best_next {
                Some(next) => {
                    let ghost pre = path@;
                    path.push(next);
                    current = next;
                    proof {
                        assert(path@ =~= pre.push(next));
                    }
                },
                None => {
                    proof {
                        assert forall|t: SagaState|
                            #[trigger] spec_probability(self.transitions@, current, t)
                                == 0 by {
                            if spec_probability(self.transitions@, current, t) != 0 {
                                lemma_probability_nonzero_has_edge(
                                    self.transitions@,
                                    current,
                                    t,
                                );
                            }
                        }
                    }
                    return path;
                },
            }
            hops = hops + 1;
        }
        path
    }
}

/// A nonzero looked-up probability means the table lists the edge.
proof fn lemma_probability_nonzero_has_edge(
    transitions: Seq<(SagaState, SagaState, u32)>,
    from: SagaState,
    to: SagaState,
)
    requires
        spec_probability(transitions, from, to) != 0,
    ensures
        exists|j: int|
            0 <= j < transitions.len() && (#[trigger] transitions[j]).0 == from
                && transitions[j].1 == to,
    decreases transitions.len(),
{
    if transitions.len() > 0 {
        if transitions[0].0 == from && transitions[0].1 == to {
            assert(transitions[0].0 == from && transitions[0].1 == to);
        } else {
            let tail = transitions.subrange(1, transitions.len() as int);
            lemma_probability_nonzero_has_edge(tail, from, to);
            let j = choose|j: int|
                0 <= j < tail.len() && (#[trigger] tail[j]).0 == from && tail[j].1 == to;
            assert(transitions[j + 1] == tail[j]);
        }
    }
}

/// Returns whether the edge `(f0, t0)` is the edge `(from, to)`.
fn matches_edge(f0: SagaState, t0: SagaState, from: SagaState, to: SagaState) -> (r: bool)
    ensures
        r == (f0 == from && t0 == to),
{
    f0 == from && t0 == to
}

/// Clamps an advisory value into the bounded range.
fn clamp_value(v: i128) -> (r: i64)
    ensures
        r == spec_clamp(v as int),
{
    if v > VALUE_BOUND as i128 {
        VALUE_BOUND
    } else if v < -(VALUE_BOUND as i128) {
        -VALUE_BOUND
    } else {
        v as i64
    }
}

/// The probability-weighted value used by the greedy walk, clamped.
fn mul_prob(p: u32, value: i64) -> (r: i64)
    ensures
        r == spec_clamp(spec_div_trunc((p as int) * value, 1000)),
{
    let direct: i128 = mul_bounded(p, 1, value);
    proof {
        assert((p as int) * 1 * (value as int) == (p as int) * (value as int))
            by (nonlinear_arith);
    }
    clamp_value(div_trunc_i128(direct, 1000))
}

/// Multiplies a probability, a small weight and a bounded value without
/// overflow.
fn mul_bounded(p: u32, w: u32, value: i64) -> (r: i128)
    requires
        w <= 9,
    ensures
        r == (p as int) * (w as int) * (value as int),
        -(0x1_0000_0000 * 9 * 0x8000_0000_0000_0000) <= r <= 0x1_0000_0000 * 9
            * 0x8000_0000_0000_0000,
{
    proof {
        assert((p as int) * (w as int) <= 0x1_0000_0000 * 9 && (p as int) * (w as int) >= 0)
            by (nonlinear_arith)
            requires
                p <= u32::MAX,
                w <= 9,
        ;
    }
    let pw: i128 = (p as i128) * (w as i128);
    proof {
        assert(pw * (value as int) <= 0x1_0000_0000 * 9 * 0x8000_0000_0000_0000 && pw * (
        value as int) >= -(0x1_0000_0000 * 9 * 0x8000_0000_0000_0000)) by (nonlinear_arith)
            requires
                0 <= pw <= 0x1_0000_0000 * 9,
                i64::MIN <= value <= i64::MAX,
        ;
    }
    pw * (value as i128)
}

/// Truncating division of a bounded value by a positive constant.
fn div_trunc_i128(a: i128, b: i128) -> (r: i128)
    requires
        b > 0,
        -0x4000_0000_0000_0000_0000_0000_0000_0000 < a
            < 0x4000_0000_0000_0000_0000_0000_0000_0000,
    ensures
        r == spec_div_trunc(a as int, b as int),
        -0x4000_0000_0000_0000_0000_0000_0000_0000 < r
            < 0x4000_0000_0000_0000_0000_0000_0000_0000,
{
    if a >= 0 {
        a / b
    } else {
        -((-a) / b)
    }
}

/// Weighted, discounted contribution of one edge: probability times nine
/// tenths of the future value, in the fixed-point scale.
fn weighted_future(p: u32, future: i64) -> (r: i128)
    ensures
        r == spec_div_trunc((p as int) * 9 * (future as int), 10000),
        -(0x1_0000_0000 * 9 * 0x8000_0000_0000_0000) <= r <= 0x1_0000_0000 * 9
            * 0x8000_0000_0000_0000,
{
    let prod: i128 = mul_bounded(p, 9, future);
    div_trunc_i128(prod, 10000)
}

/// Replacing the first matching edge sets its probability and keeps every
/// other edge's.
proof fn lemma_probability_update(
    pre: Seq<(SagaState, SagaState, u32)>,
    i: int,
    from: SagaState,
    to: SagaState,
    p: u32,
)
    requires
        0 <= i < pre.len(),
        pre[i].0 == from && pre[i].1 == to,
        forall|j: int| 0 <= j < i ==> !((#[trigger] pre[j]).0 == from && pre[j].1 == to),
    ensures
        spec_probability(pre.update(i, (from, to, p)), from, to) == p,
        forall|f: SagaState, t: SagaState|
            !(f == from && t == to) ==> spec_probability(pre.update(i, (from, to, p)), f, t)
                == spec_probability(pre, f, t),
    decreases pre.len(),
{
    let post = pre.update(i, (from, to, p));
    if i == 0 {
        assert forall|f: SagaState, t: SagaState| !(f == from && t == to) implies spec_probability(
            post,
            f,
            t,
        ) == spec_probability(pre, f, t) by {
            assert(post.subrange(1, post.len() as int) =~= pre.subrange(1, pre.len() as int));
        }
    } else {
        let pre_tail = pre.subrange(1, pre.len() as int);
        assert(pre_tail[i - 1] == pre[i]);
        lemma_probability_update(pre_tail, i - 1, from, to, p);
        assert(post.subrange(1, post.len() as int) =~= pre_tail.update(i - 1, (from, to, p)));
        assert(post[0] == pre[0]);
        assert(!(post[0].0 == from && post[0].1 == to));
        assert(spec_probability(post, from, to) == p);
        assert forall|f: SagaState, t: SagaState| !(f == from && t == to) implies spec_probability(
            post,
            f,
            t,
        ) == spec_probability(pre, f, t) by {
            assert(spec_probability(post.subrange(1, post.len() as int), f, t)
                == spec_probability(pre_tail, f, t));
        }
    }
}

/// Appending a missing edge sets its probability and keeps every other
/// edge's.
proof fn lemma_probability_append(
    pre: Seq<(SagaState, SagaState, u32)>,
    from: SagaState,
    to: SagaState,
    p: u32,
)
    requires
        forall|j: int| 0 <= j < pre.len() ==> !((#[trigger] pre[j]).0 == from && pre[j].1 == to),
    ensures
        spec_probability(pre.push((from, to, p)), from, to) == p,
        forall|f: SagaState, t: SagaState|
            !(f == from && t == to) ==> spec_probability(pre.push((from, to, p)), f, t)
                == spec_probability(pre, f, t),
    decreases pre.len(),
{
    let post = pre.push((from, to, p));
    if pre.len() == 0 {
        assert(post.subrange(1, post.len() as int) =~= Seq::<(SagaState, SagaState, u32)>::empty());
        assert forall|f: SagaState, t: SagaState| !(f == from && t == to) implies spec_probability(
            post,
            f,
            t,
        ) == spec_probability(pre, f, t) by {
            assert(spec_probability(post.subrange(1, post.len() as int), f, t) == 0);
        }
    } else {
        let pre_tail = pre.subrange(1, pre.len() as int);
        lemma_probability_append(pre_tail, from, to, p);
        assert(post.subrange(1, post.len() as int) =~= pre_tail.push((from, to, p)));
        assert(post[0] == pre[0]);
        assert(!(post[0].0 == from && post[0].1 == to));
        assert(spec_probability(post, from, to) == p);
        assert forall|f: SagaState, t: SagaState| !(f == from && t == to) implies spec_probability(
            post,
            f,
            t,
        ) == spec_probability(pre, f, t) by {
            assert(spec_probability(post.subrange(1, post.len() as int), f, t)
                == spec_probability(pre_tail, f, t));
        }
    }
}

/// Replacing the first matching reward entry sets it and keeps the others.
proof fn lemma_reward_update(pre: Seq<(SagaState, i64)>, i: int, state: SagaState, reward: i64)
    requires
        0 <= i < pre.len(),
        pre[i].0 == state,
        forall|j: int| 0 <= j < i ==> (#[trigger] pre[j]).0 != state,
    ensures
        spec_reward(pre.update(i, (state, reward)), state) == reward,
        forall|s: SagaState|
            s != state ==> spec_reward(pre.update(i, (state, reward)), s) == spec_reward(pre, s),
    decreases pre.len(),
{
    let post = pre.update(i, (state, reward));
    if i == 0 {
        assert forall|s: SagaState| s != state implies spec_reward(post, s) == spec_reward(
            pre,
            s,
        ) by {
            assert(post.subrange(1, post.len() as int) =~= pre.subrange(1, pre.len() as int));
        }
    } else {
        let pre_tail = pre.subrange(1, pre.len() as int);
        assert(pre_tail[i - 1] == pre[i]);
        lemma_reward_update(pre_tail, i - 1, state, reward);
        assert(post.subrange(1, post.len() as int) =~= pre_tail.update(i - 1, (state, reward)));
        assert(post[0] == pre[0]);
        assert(post[0].0 != state);
        assert(spec_reward(post, state) == reward);
        assert forall|s2: SagaState| s2 != state implies spec_reward(post, s2) == spec_reward(
            pre,
            s2,
        ) by {
            assert(spec_reward(post.subrange(1, post.len() as int), s2) == spec_reward(
                pre_tail,
                s2,
            ));
        }
    }
}

/// Appending a missing reward entry sets it and keeps the others.
proof fn lemma_reward_append(pre: Seq<(SagaState, i64)>, state: SagaState, reward: i64)
    requires
        forall|j: int| 0 <= j < pre.len() ==> (#[trigger] pre[j]).0 != state,
    ensures
        spec_reward(pre.push((state, reward)), state) == reward,
        forall|s: SagaState|
            s != state ==> spec_reward(pre.push((state, reward)), s) == spec_reward(pre, s),
    decreases pre.len(),
{
    let post = pre.push((state, reward));
    if pre.len() == 0 {
        assert(post.subrange(1, post.len() as int) =~= Seq::<(SagaState, i64)>::empty());
        assert forall|s: SagaState| s != state implies spec_reward(post, s) == spec_reward(
            pre,
            s,
        ) by {
            assert(spec_reward(post.subrange(1, post.len() as int), s) == 0);
        }
    } else {
        let pre_tail = pre.subrange(1, pre.len() as int);
        lemma_reward_append(pre_tail, state, reward);
        assert(post.subrange(1, post.len() as int) =~= pre_tail.push((state, reward)));
        assert(post[0] == pre[0]);
        assert(post[0].0 != state);
        assert(spec_reward(post, state) == reward);
        assert forall|s2: SagaState| s2 != state implies spec_reward(post, s2) == spec_reward(
            pre,
            s2,
        ) by {
            assert(spec_reward(post.subrange(1, post.len() as int), s2) == spec_reward(
                pre_tail,
                s2,
            ));
        }
    }
}

} // verus!
