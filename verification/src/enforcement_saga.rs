//! The enforcement workflow: a saga that collects per-policy compliance
//! results and decides, under the set's composition rule, whether to allow,
//! allow with a warning, or block.

use vstd::prelude::*;
use crate::sagas::{SagaState, StateTransition, SagaMetadata, SagaError, MarkovChain,
    create_root_command};
use crate::value_objects::{PolicyId, ComplianceResult, ComplianceResultV, clone_vec_deep};
use crate::aggregate::CompositionRule;
use crate::events::PolicyEvent;
use crate::commands::{PolicyCommand, EnforcePolicy, EnforcementAction};
use crate::value_objects::PolicyTarget;

verus! {

broadcast use {vstd::std_specs::vec::group_vec_axioms, vstd::seq::group_seq_axioms};

/// The decision an enforcement run reaches.
#[derive(Debug, Clone, Copy, PartialEq, Eq, Structural)]
pub enum EnforcementDecision {
    Allow,
    AllowWithWarning,
    Block,
    Quarantine,
    Redirect,
}

/// How many recorded results count as compliant.
pub open spec fn spec_compliant_count(results: Seq<(PolicyId, ComplianceResultV)>) -> int
    decreases results,
{
    if results.len() == 0 {
        0
    } else {
        spec_compliant_count(results.drop_last()) + if results.last().1.spec_is_compliant() {
            1int
        } else {
            0int
        }
    }
}

/// The decision the composition rule reaches over the recorded results:
/// `All` allows only full compliance, `Any` allows one compliant member,
/// `Majority` allows more than half with a warning, `AtLeast(n)` allows `n`
/// compliant members; everything else blocks.
pub open spec fn spec_decision(
    composition: CompositionRule,
    results: Seq<(PolicyId, ComplianceResultV)>,
) -> EnforcementDecision {
    let compliant = spec_compliant_count(results);
    let total = results.len() as int;
    match composition {
        CompositionRule::All => if compliant == total {
            EnforcementDecision::Allow
        } else {
            EnforcementDecision::Block
        },
        CompositionRule::Any => if compliant > 0 {
            EnforcementDecision::Allow
        } else {
            EnforcementDecision::Block
        },
        CompositionRule::Majority => if compliant > total / 2 {
            EnforcementDecision::AllowWithWarning
        } else {
            EnforcementDecision::Block
        },
        CompositionRule::AtLeast(n) => if compliant >= n {
            EnforcementDecision::Allow
        } else {
            EnforcementDecision::Block
        },
    }
}

/// Binding a policy's result: the first entry for the policy is replaced,
/// a new policy is appended.
pub open spec fn spec_record_result(
    results: Seq<(PolicyId, ComplianceResultV)>,
    policy_id: PolicyId,
    result: ComplianceResultV,
) -> Seq<(PolicyId, ComplianceResultV)>
    decreases results,
{
    if results.len() == 0 {
        seq![(policy_id, result)]
    } else if results[0].0 == policy_id {
        seq![(policy_id, result)] + results.subrange(1, results.len() as int)
    } else {
        seq![results[0]] + spec_record_result(
            results.subrange(1, results.len() as int),
            policy_id,
            result,
        )
    }
}

/// The state a decision moves the workflow to: allowed for the allowing
/// decisions, blocked for the blocking ones, enforcing for a redirect.
pub open spec fn spec_state_of_decision(d: EnforcementDecision) -> SagaState {
    match d {
        EnforcementDecision::Allow => SagaState::Allowed,
        EnforcementDecision::AllowWithWarning => SagaState::Allowed,
        EnforcementDecision::Block => SagaState::Blocked,
        EnforcementDecision::Quarantine => SagaState::Blocked,
        EnforcementDecision::Redirect => SagaState::Enforcing,
    }
}

/// Whether a result is recorded for the policy.
pub open spec fn spec_has_result(
    results: Seq<(PolicyId, ComplianceResultV)>,
    pid: PolicyId,
) -> bool {
    exists|j: int| 0 <= j < results.len() && (#[trigger] results[j]).0 == pid
}

/// The tracked policies still without a recorded result, in tracking order.
pub open spec fn spec_pending(
    ids: Seq<PolicyId>,
    results: Seq<(PolicyId, ComplianceResultV)>,
) -> Seq<PolicyId>
    decreases ids,
{
    if ids.len() == 0 {
        Seq::empty()
    } else {
        let head: Seq<PolicyId> = if spec_has_result(results, ids[0]) {
            Seq::empty()
        } else {
            seq![ids[0]]
        };
        head + spec_pending(ids.subrange(1, ids.len() as int), results)
    }
}

/// Everything recording one policy's result pins down: the entry is bound,
/// nothing else moves, and once every tracked policy has a result the
/// decision under the composition rule is made and the state follows it.
/// When the recording leaves results incomplete and `adjust_initiated` is
/// set, an initiated saga moves to evaluating.
pub open spec fn spec_observed_result(
    pre: PolicyEnforcementSaga,
    post: PolicyEnforcementSaga,
    pid: PolicyId,
    rv: ComplianceResultV,
    adjust_initiated: bool,
) -> bool {
    let results = spec_record_result(pre.spec_results(), pid, rv);
    &&& post.spec_results() == results
    &&& post.policy_ids@ == pre.policy_ids@
    &&& post.composition_rule == pre.composition_rule
    &&& if results.len() == pre.policy_ids@.len() {
        &&& post.enforcement_decision == Some(spec_decision(pre.composition_rule, results))
        &&& post.current_state == spec_state_of_decision(
            spec_decision(pre.composition_rule, results),
        )
    } else {
        &&& post.enforcement_decision == pre.enforcement_decision
        &&& post.current_state == if adjust_initiated && pre.current_state
            == SagaState::Initiated {
            SagaState::Evaluating
        } else {
            pre.current_state
        }
    }
}

/// The remediation hints carried by a sequence of violations, in order.
pub open spec fn spec_hints(vs: Seq<crate::value_objects::ViolationV>) -> Seq<Seq<char>>
    decreases vs,
{
    if vs.len() == 0 {
        Seq::empty()
    } else {
        let head: Seq<Seq<char>> = match vs[0].suggested_remediation {
            Some(h) => seq![h],
            None => Seq::empty(),
        };
        head + spec_hints(vs.subrange(1, vs.len() as int))
    }
}

/// The remediation hints of one recorded outcome: those of its violations
/// when non-compliant, none otherwise.
pub open spec fn spec_result_hints(c: ComplianceResultV) -> Seq<Seq<char>> {
    match c {
        ComplianceResultV::NonCompliant { violations } => spec_hints(violations),
        _ => Seq::empty(),
    }
}

/// All remediation hints of the recorded results, in recording order.
pub open spec fn spec_remediations(results: Seq<(PolicyId, ComplianceResultV)>) -> Seq<Seq<char>>
    decreases results,
{
    if results.len() == 0 {
        Seq::empty()
    } else {
        spec_result_hints(results[0].1) + spec_remediations(
            results.subrange(1, results.len() as int),
        )
    }
}

/// The saga that drives one enforcement run over a set of policies.
#[derive(Debug)]
pub struct PolicyEnforcementSaga {
    /// Tracking metadata.
    pub metadata: SagaMetadata,
    /// The policies whose compliance gates the enforcement.
    pub policy_ids: Vec<PolicyId>,
    /// The committed state of the workflow.
    pub current_state: SagaState,
    /// The advisory planning chain.
    pub markov_chain: MarkovChain,
    /// The per-policy results recorded so far, one entry per policy.
    pub evaluation_results: Vec<(PolicyId, ComplianceResult)>,
    /// The decision, once every policy has a result.
    pub enforcement_decision: Option<EnforcementDecision>,
    /// How member compliance folds into the decision.
    pub composition_rule: CompositionRule,
}

impl PolicyEnforcementSaga {
    /// The recorded results as a mathematical sequence.
    pub open spec fn spec_results(&self) -> Seq<(PolicyId, ComplianceResultV)> {
        self.evaluation_results.deep_view()
    }

    /// Creates an enforcement saga over the given policies.
    pub fn new(policy_ids: Vec<PolicyId>, initiated_by: &str, composition: CompositionRule) -> (r:
        PolicyEnforcementSaga)
        ensures
            r.policy_ids@ == policy_ids@,
            r.current_state == SagaState::Initiated,
            r.spec_results().len() == 0,
            r.enforcement_decision is None,
            r.composition_rule == composition,
    {
        let mut markov_chain = MarkovChain::new();
        markov_chain.add_transition(SagaState::Initiated, SagaState::Evaluating, 1000);
        markov_chain.add_transition(SagaState::Evaluating, SagaState::Enforcing, 800);
        markov_chain.add_transition(SagaState::Evaluating, SagaState::Failed, 200);
        markov_chain.add_transition(SagaState::Enforcing, SagaState::Allowed, 600);
        markov_chain.add_transition(SagaState::Enforcing, SagaState::Blocked, 300);
        markov_chain.add_transition(SagaState::Enforcing, SagaState::Remediation, 100);
        markov_chain.set_state_reward(SagaState::Allowed, 50);
        markov_chain.set_state_reward(SagaState::Blocked, -10);
        markov_chain.set_state_reward(SagaState::Remediation, 20);
        markov_chain.set_state_reward(SagaState::Failed, -100);
        let r = PolicyEnforcementSaga {
            metadata: SagaMetadata::new(initiated_by),
            policy_ids,
            current_state: SagaState::Initiated,
            markov_chain,
            evaluation_results: Vec::new(),
            enforcement_decision: None,
            composition_rule: composition,
        };
        proof {
            assert(r.spec_results() =~= Seq::<(PolicyId, ComplianceResultV)>::empty());
        }
        r
    }

    /// Returns the committed state of the workflow.
    pub fn current_state(&self) -> (r: SagaState)
        ensures
            r == self.current_state,
    {
        self.current_state
    }

    /// The transitions the allowed-transition table admits from each state of
    /// this workflow.
    pub open spec fn spec_available_transitions(state: SagaState) -> Seq<StateTransition> {
        match state {
            SagaState::Initiated => seq![StateTransition::Start],
            SagaState::Evaluating => seq![StateTransition::Evaluate],
            SagaState::Enforcing => seq![
                StateTransition::Allow,
                StateTransition::Block,
                StateTransition::Remediate,
            ],
            SagaState::Blocked => seq![StateTransition::Remediate],
            _ => Seq::empty(),
        }
    }

    /// Returns the transitions the allowed-transition table admits from the
    /// current state.
    pub fn available_transitions(&self) -> (r: Vec<StateTransition>)
        ensures
            r@ == PolicyEnforcementSaga::spec_available_transitions(self.current_state),
    {
        let mut out: Vec<StateTransition> = Vec::new();
        match self.current_state {
            SagaState::Initiated => {
                out.push(StateTransition::Start);
            },
            SagaState::Evaluating => {
                out.push(StateTransition::Evaluate);
            },
            SagaState::Enforcing => {
                out.push(StateTransition::Allow);
                out.push(StateTransition::Block);
                out.push(StateTransition::Remediate);
            },
            SagaState::Blocked => {
                out.push(StateTransition::Remediate);
            },
            _ => {},
        }
        proof {
            assert(out@ =~= PolicyEnforcementSaga::spec_available_transitions(
                self.current_state,
            ));
        }
        out
    }

    /// Returns the advisory probability of one transition, in thousandths.
    pub fn transition_probability(&self, from: &SagaState, to: &SagaState) -> (r: u32)
        ensures
            r == crate::sagas::spec_probability(self.markov_chain.transitions@, *from, *to),
    {
        self.markov_chain.transition_probability(from, to)
    }

    /// Records one policy's result, replacing an earlier result for the same
    /// policy. Once every tracked policy has a result, the decision is made
    /// under the composition rule and the state moves to allowed or blocked.
    #[verifier::loop_isolation(false)]
    pub fn add_evaluation_result(&mut self, policy_id: PolicyId, result: ComplianceResult)
        ensures
            spec_observed_result(
                *old(self),
                *final(self),
                policy_id,
                result.deep_view(),
                false,
            ),
    {
        let ghost pre = self.spec_results();
        let rv = result;
        let mut i: usize = 0;
        let mut replaced = false;
        while i < self.evaluation_results.len() && !replaced
            invariant
                0 <= i <= self.evaluation_results@.len(),
                self.policy_ids@ == old(self).policy_ids@,
                self.composition_rule == old(self).composition_rule,
                self.current_state == old(self).current_state,
                self.enforcement_decision == old(self).enforcement_decision,
                !replaced ==> self.spec_results() == pre && forall|j: int|
                    0 <= j < i ==> (#[trigger] pre[j]).0 != policy_id,
                replaced ==> self.spec_results() == spec_record_result(
                    pre,
                    policy_id,
                    rv.deep_view(),
                ),
            decreases self.evaluation_results@.len() - i + (if replaced {
                0int
            } else {
                1int
            }),
        {
            if self.evaluation_results[i].0.0 == policy_id.0 {
                let copy = rv.clone();
                let ghost copy_view = copy.deep_view();
                self.evaluation_results.set(i, (policy_id, copy));
                replaced = true;
                proof {
                    lemma_record_result_update(pre, i as int, policy_id, rv.deep_view());
                    assert(self.spec_results() =~= pre.update(
                        i as int,
                        (policy_id, rv.deep_view()),
                    ));
                }
            } else {
                i = i + 1;
            }
        }
        if !replaced {
            let copy = rv.clone();
            let ghost copy_view = copy.deep_view();
            self.evaluation_results.push((policy_id, copy));
            proof {
                lemma_record_result_append(pre, policy_id, rv.deep_view());
                assert(self.spec_results() =~= pre.push((policy_id, rv.deep_view())));
            }
        }
        self.metadata.update();
        if self.evaluation_results.len() == self.policy_ids.len() {
            self.make_enforcement_decision();
        }
    }

    /// Decides under the composition rule over the recorded results, and
    /// moves the state accordingly.
    #[verifier::loop_isolation(false)]
    fn make_enforcement_decision(&mut self)
        ensures
            final(self).spec_results() == old(self).spec_results(),
            final(self).policy_ids@ == old(self).policy_ids@,
            final(self).composition_rule == old(self).composition_rule,
            final(self).enforcement_decision == Some(
                spec_decision(old(self).composition_rule, old(self).spec_results()),
            ),
            final(self).current_state == (match spec_decision(
                old(self).composition_rule,
                old(self).spec_results(),
            ) {
                EnforcementDecision::Allow => SagaState::Allowed,
                EnforcementDecision::AllowWithWarning => SagaState::Allowed,
                EnforcementDecision::Block => SagaState::Blocked,
                EnforcementDecision::Quarantine => SagaState::Blocked,
                EnforcementDecision::Redirect => SagaState::Enforcing,
            }),
    {
        let ghost results = self.spec_results();
        let mut compliant_count: usize = 0;
        let mut i: usize = 0;
        proof {
            assert(results.subrange(0, 0) =~= Seq::<(PolicyId, ComplianceResultV)>::empty());
        }
        while i < self.evaluation_results.len()
            invariant
                0 <= i <= self.evaluation_results@.len(),
                self.spec_results() == results,
                self.policy_ids@ == old(self).policy_ids@,
                self.composition_rule == old(self).composition_rule,
                self.current_state == old(self).current_state,
                self.enforcement_decision == old(self).enforcement_decision,
                compliant_count <= i,
                compliant_count == spec_compliant_count(results.subrange(0, i as int)),
            decreases self.evaluation_results@.len() - i,
        {
            if self.evaluation_results[i].1.is_compliant() {
                compliant_count = compliant_count + 1;
            }
            i = i + 1;
            proof {
                assert(results.subrange(0, i as int).drop_last() =~= results.subrange(0, i - 1));
                assert(results.subrange(0, i as int).last() == results[i - 1]);
            }
        }
        proof {
            assert(results.subrange(0, i as int) =~= results);
        }
        let total = self.evaluation_results.len();
        let decision: EnforcementDecision = match self.composition_rule {
            CompositionRule::All => if compliant_count == total {
                EnforcementDecision::Allow
            } else {
                EnforcementDecision::Block
            },
            CompositionRule::Any => if compliant_count > 0 {
                EnforcementDecision::Allow
            } else {
                EnforcementDecision::Block
            },
            CompositionRule::Majority => if compliant_count > total / 2 {
                EnforcementDecision::AllowWithWarning
            } else {
                EnforcementDecision::Block
            },
            CompositionRule::AtLeast(n) => if compliant_count >= n {
                EnforcementDecision::Allow
            } else {
                EnforcementDecision::Block
            },
        };
        self.enforcement_decision = Some(decision);
        self.current_state = match decision {
            EnforcementDecision::Allow => SagaState::Allowed,
            EnforcementDecision::AllowWithWarning => SagaState::Allowed,
            EnforcementDecision::Block => SagaState::Blocked,
            EnforcementDecision::Quarantine => SagaState::Blocked,
            EnforcementDecision::Redirect => SagaState::Enforcing,
        };
    }

    /// Collects the remediation hints of every violation in the recorded
    /// non-compliant results, in recording order.
    #[verifier::loop_isolation(false)]
    pub fn get_remediation_steps(&self) -> (r: Vec<String>)
        ensures
            r.deep_view() == spec_remediations(self.spec_results()),
    {
        let ghost results = self.spec_results();
        let mut steps: Vec<String> = Vec::new();
        proof {
            assert(results.subrange(0, results.len() as int) =~= results);
            assert(steps.deep_view() =~= Seq::<Seq<char>>::empty());
        }
        let mut i: usize = 0;
        while i < self.evaluation_results.len()
            invariant
                0 <= i <= self.evaluation_results@.len(),
                self.spec_results() == results,
                self.evaluation_results@.len() == results.len(),
                spec_remediations(results) == steps.deep_view() + spec_remediations(
                    results.subrange(i as int, results.len() as int),
                ),
            decreases self.evaluation_results@.len() - i,
        {
            proof {
                let tail = results.subrange(i as int, results.len() as int);
                assert(tail[0] == results[i as int]);
                assert(tail.subrange(1, tail.len() as int) =~= results.subrange(
                    i + 1,
                    results.len() as int,
                ));
            }
            match &self.evaluation_results[i].1 {
                ComplianceResult::NonCompliant { violations } => {
                    proof {
                        assert(results[i as int].1 == ComplianceResultV::NonCompliant {
                            violations: violations.deep_view(),
                        });
                        assert(violations.deep_view().subrange(
                            0,
                            violations.deep_view().len() as int,
                        ) =~= violations.deep_view());
                    }
                    let ghost vs = violations.deep_view();
                    let mut j: usize = 0;
                    while j < violations.len()
                        invariant
                            0 <= j <= violations@.len(),
                            violations@.len() == vs.len(),
                            violations.deep_view() == vs,
                            spec_remediations(results) == steps.deep_view() + spec_hints(
                                vs.subrange(j as int, vs.len() as int),
                            ) + spec_remediations(
                                results.subrange(i + 1, results.len() as int),
                            ),
                        decreases violations@.len() - j,
                    {
                        proof {
                            let vtail = vs.subrange(j as int, vs.len() as int);
                            assert(vtail[0] == vs[j as int]);
                            assert(vtail.subrange(1, vtail.len() as int) =~= vs.subrange(
                                j + 1,
                                vs.len() as int,
                            ));
                        }
                        let ghost pre_steps = steps.deep_view();
                        match &violations[j].suggested_remediation {
                            Some(remediation) => {
                                let copy = remediation.clone();
                                let ghost cv = copy@;
                                steps.push(copy);
                                proof {
                                    assert(steps.deep_view() =~= pre_steps.push(cv));
                                    assert(vs[j as int].suggested_remediation == Some(cv));
                                    assert(spec_remediations(results) =~= steps.deep_view()
                                        + spec_hints(vs.subrange(j + 1, vs.len() as int))
                                        + spec_remediations(
                                        results.subrange(i + 1, results.len() as int),
                                    ));
                                }
                            },
                            None => {
                                proof {
                                    assert(vs[j as int].suggested_remediation is None);
                                    assert(spec_remediations(results) =~= steps.deep_view()
                                        + spec_hints(vs.subrange(j + 1, vs.len() as int))
                                        + spec_remediations(
                                        results.subrange(i + 1, results.len() as int),
                                    ));
                                }
                            },
                        }
                        j = j + 1;
                    }
                    proof {
                        assert(vs.subrange(j as int, vs.len() as int) =~= Seq::<
                            crate::value_objects::ViolationV,
                        >::empty());
                        assert(spec_remediations(results) =~= steps.deep_view()
                            + spec_remediations(
                            results.subrange(i + 1, results.len() as int),
                        ));
                    }
                },
                _ => {
                    proof {
                        assert(!(results[i as int].1 is NonCompliant));
                        assert(spec_remediations(results) =~= steps.deep_view()
                            + spec_remediations(
                            results.subrange(i + 1, results.len() as int),
                        ));
                    }
                },
            }
            i = i + 1;
        }
        proof {
            assert(results.subrange(i as int, results.len() as int) =~= Seq::<
                (PolicyId, ComplianceResultV),
            >::empty());
            assert(steps.deep_view() =~= spec_remediations(results));
        }
        steps
    }

    /// Applies one observed event: an evaluation or compliance event for a
    /// tracked policy records its result; other events are ignored.
    /// Everything applying one event pins down: an evaluation, violation or
    /// compliance event for a tracked policy records its result (an
    /// evaluation event also moves an initiated saga to evaluating); other
    /// events change nothing.
    pub open spec fn spec_apply_post(
        pre: PolicyEnforcementSaga,
        event: PolicyEvent,
        post: PolicyEnforcementSaga,
        r: Result<(), SagaError>,
    ) -> bool {
        &&& r is Ok
        &&& match event {
            PolicyEvent::PolicyEvaluated(e) => {
                if pre.policy_ids@.contains(e.policy_id) {
                    spec_observed_result(pre, post, e.policy_id, e.result.deep_view(), true)
                } else {
                    post == pre
                }
            },
            PolicyEvent::PolicyViolationDetected(e) => {
                if pre.policy_ids@.contains(e.policy_id) {
                    spec_observed_result(
                        pre,
                        post,
                        e.policy_id,
                        ComplianceResultV::NonCompliant { violations: e.violations.deep_view() },
                        false,
                    )
                } else {
                    post == pre
                }
            },
            PolicyEvent::PolicyCompliancePassed(e) => {
                if pre.policy_ids@.contains(e.policy_id) {
                    spec_observed_result(pre, post, e.policy_id, ComplianceResultV::Compliant, false)
                } else {
                    post == pre
                }
            },
            _ => post == pre,
        }
    }

    /// Applies one observed event, per `spec_apply_post`.
    pub fn apply_event(&mut self, event: &PolicyEvent) -> (r: Result<(), SagaError>)
        ensures
            PolicyEnforcementSaga::spec_apply_post(*old(self), *event, *final(self), r),
    {
        match event {
            PolicyEvent::PolicyEvaluated(e) => {
                if contains_id(&self.policy_ids, e.policy_id) {
                    let result = e.result.clone();
                    self.add_evaluation_result(e.policy_id, result);
                    if matches!(self.current_state, SagaState::Initiated) {
                        self.current_state = SagaState::Evaluating;
                    }
                }
                Ok(())
            },
            PolicyEvent::PolicyViolationDetected(e) => {
                if contains_id(&self.policy_ids, e.policy_id) {
                    let result = ComplianceResult::NonCompliant {
                        violations: clone_vec_deep(&e.violations),
                    };
                    self.add_evaluation_result(e.policy_id, result);
                }
                Ok(())
            },
            PolicyEvent::PolicyCompliancePassed(e) => {
                if contains_id(&self.policy_ids, e.policy_id) {
                    self.add_evaluation_result(e.policy_id, ComplianceResult::Compliant);
                }
                Ok(())
            },
            _ => Ok(()),
        }
    }

    /// Derives the follow-up commands of the current state: one evaluation
    /// request per tracked policy still without a result while initiated or
    /// evaluating, and one enforcement command carrying the decision while
    /// enforcing.
    #[verifier::loop_isolation(false)]
    /// Everything command derivation pins down: one evaluation request per
    /// tracked policy still without a result while initiated or evaluating,
    /// one enforcement command carrying the decision while enforcing,
    /// nothing otherwise.
    pub open spec fn spec_commands_post(
        s: PolicyEnforcementSaga,
        cmds: Seq<PolicyCommand>,
    ) -> bool {
        &&& s.current_state == SagaState::Initiated || s.current_state == SagaState::Evaluating
            ==> {
            let pending = spec_pending(s.policy_ids@, s.spec_results());
            &&& cmds.len() == pending.len()
            &&& forall|k: int|
                0 <= k < pending.len() ==> ((#[trigger] cmds[k]) matches
                    PolicyCommand::EvaluatePolicy(c) && c.policy_id == pending[k])
        }
        &&& s.current_state == SagaState::Enforcing && s.enforcement_decision is Some
            && s.policy_ids@.len() > 0 ==> cmds.len() == 1 && (cmds[0] matches
            PolicyCommand::EnforcePolicy(c) && c.policy_id == s.policy_ids@[0]
            && c.enforcement_action == spec_action_of(s.enforcement_decision->Some_0))
        &&& s.current_state != SagaState::Initiated && s.current_state != SagaState::Evaluating
            && s.current_state != SagaState::Enforcing ==> cmds.len() == 0
    }

    /// Derives the follow-up commands of the current state, per
    /// `spec_commands_post`.
    #[verifier::loop_isolation(false)]
    pub fn get_commands(&self) -> (r: Vec<PolicyCommand>)
        ensures
            PolicyEnforcementSaga::spec_commands_post(*self, r@),
    {
        let mut commands: Vec<PolicyCommand> = Vec::new();
        match self.current_state {
            SagaState::Initiated | SagaState::Evaluating => {
                let ghost ids = self.policy_ids@;
                let ghost results = self.spec_results();
                let ghost pending_all = spec_pending(ids, results);
                let ghost emitted: Seq<PolicyId> = Seq::empty();
                let mut emitted_ghost: Ghost<Seq<PolicyId>> = Ghost(emitted);
                proof {
                    assert(ids.subrange(0, ids.len() as int) =~= ids);
                }
                let mut i: usize = 0;
                while i < self.policy_ids.len()
                    invariant
                        0 <= i <= ids.len(),
                        self.policy_ids@ == ids,
                        self.spec_results() == results,
                        commands@.len() == emitted_ghost@.len(),
                        forall|k: int|
                            0 <= k < emitted_ghost@.len() ==> ((#[trigger] commands@[k]) matches
                                PolicyCommand::EvaluatePolicy(c) && c.policy_id
                                == emitted_ghost@[k]),
                        pending_all == emitted_ghost@ + spec_pending(
                            ids.subrange(i as int, ids.len() as int),
                            results,
                        ),
                    decreases ids.len() - i,
                {
                    proof {
                        let tail = ids.subrange(i as int, ids.len() as int);
                        assert(tail[0] == ids[i as int]);
                        assert(tail.subrange(1, tail.len() as int) =~= ids.subrange(
                            i + 1,
                            ids.len() as int,
                        ));
                    }
                    let pid = self.policy_ids[i];
                    if !self.has_result_for(&pid) {
                        let ghost pre_cmds = commands@;
                        commands.push(PolicyCommand::EvaluatePolicy(
                            crate::commands::EvaluatePolicy {
                                identity: create_root_command(),
                                policy_id: pid,
                                context: crate::value_objects::EvaluationContext::new(),
                                requester: self.metadata.initiated_by.clone(),
                                purpose: String::from_str("enforcement evaluation"),
                            },
                        ));
                        proof {
                            emitted_ghost@ = emitted_ghost@.push(pid);
                            assert(pending_all =~= emitted_ghost@ + spec_pending(
                                ids.subrange(i + 1, ids.len() as int),
                                results,
                            ));
                        }
                    } else {
                        proof {
                            assert(pending_all =~= emitted_ghost@ + spec_pending(
                                ids.subrange(i + 1, ids.len() as int),
                                results,
                            ));
                        }
                    }
                    i = i + 1;
                }
                proof {
                    assert(ids.subrange(i as int, ids.len() as int) =~= Seq::<PolicyId>::empty());
                    assert(pending_all =~= emitted_ghost@);
                }
            },
            SagaState::Enforcing => {
                if let Some(decision) = &self.enforcement_decision {
                    let action: EnforcementAction = match decision {
                        EnforcementDecision::Allow => EnforcementAction::Allow,
                        EnforcementDecision::AllowWithWarning => {
                            EnforcementAction::AllowWithWarning
                        },
                        EnforcementDecision::Block => EnforcementAction::Block,
                        EnforcementDecision::Quarantine => EnforcementAction::Quarantine,
                        EnforcementDecision::Redirect => EnforcementAction::Redirect,
                    };
                    if self.policy_ids.len() > 0 {
                        commands.push(PolicyCommand::EnforcePolicy(EnforcePolicy {
                            identity: create_root_command(),
                            policy_id: self.policy_ids[0],
                            target: PolicyTarget::Global,
                            context: Vec::new(),
                            enforced_by: self.metadata.initiated_by.clone(),
                            enforcement_action: action,
                        }));
                    }
                }
            },
            _ => {},
        }
        commands
    }

    /// Returns whether a result is recorded for the policy.
    #[verifier::loop_isolation(false)]
    fn has_result_for(&self, policy_id: &PolicyId) -> (r: bool)
        ensures
            r == spec_has_result(self.spec_results(), *policy_id),
    {
        let mut i: usize = 0;
        while i < self.evaluation_results.len()
            invariant
                0 <= i <= self.evaluation_results@.len(),
                forall|j: int|
                    0 <= j < i ==> (#[trigger] self.spec_results()[j]).0 != *policy_id,
            decreases self.evaluation_results@.len() - i,
        {
            if self.evaluation_results[i].0.0 == policy_id.0 {
                proof {
                    assert(self.spec_results()[i as int].0 == *policy_id);
                }
                return true;
            }
            i = i + 1;
        }
        false
    }

    /// Returns whether the workflow reached a terminal state.
    pub fn is_complete(&self) -> (r: bool)
        ensures
            r == (self.current_state == SagaState::Allowed || self.current_state
                == SagaState::Blocked || self.current_state == SagaState::Completed),
    {
        matches!(
            self.current_state,
            SagaState::Allowed | SagaState::Blocked | SagaState::Completed
        )
    }

    /// Returns whether the workflow failed.
    pub fn has_failed(&self) -> (r: bool)
        ensures
            r == (self.current_state == SagaState::Failed),
    {
        matches!(self.current_state, SagaState::Failed)
    }
}

/// The enforcement action a decision maps to.
pub open spec fn spec_action_of(d: EnforcementDecision) -> EnforcementAction {
    match d {
        EnforcementDecision::Allow => EnforcementAction::Allow,
        EnforcementDecision::AllowWithWarning => EnforcementAction::AllowWithWarning,
        EnforcementDecision::Block => EnforcementAction::Block,
        EnforcementDecision::Quarantine => EnforcementAction::Quarantine,
        EnforcementDecision::Redirect => EnforcementAction::Redirect,
    }
}

/// Returns whether the identifier occurs in the list.
#[verifier::loop_isolation(false)]
pub fn contains_id(v: &Vec<PolicyId>, id: PolicyId) -> (r: bool)
    ensures
        r == v@.contains(id),
{
    let mut i: usize = 0;
    while i < v.len()
        invariant
            0 <= i <= v@.len(),
            forall|j: int| 0 <= j < i ==> v@[j] != id,
        decreases v@.len() - i,
    {
        if v[i].0 == id.0 {
            return true;
        }
        i = i + 1;
    }
    false
}

/// Replacing the first entry for the policy is recording its result.
pub proof fn lemma_record_result_update(
    pre: Seq<(PolicyId, ComplianceResultV)>,
    i: int,
    policy_id: PolicyId,
    result: ComplianceResultV,
)
    requires
        0 <= i < pre.len(),
        pre[i].0 == policy_id,
        forall|j: int| 0 <= j < i ==> (#[trigger] pre[j]).0 != policy_id,
    ensures
        spec_record_result(pre, policy_id, result) == pre.update(i, (policy_id, result)),
    decreases i,
{
    if i == 0 {
        assert(spec_record_result(pre, policy_id, result) =~= pre.update(0, (policy_id, result)));
    } else {
        let tail = pre.subrange(1, pre.len() as int);
        assert(tail[i - 1] == pre[i]);
        lemma_record_result_update(tail, i - 1, policy_id, result);
        assert(spec_record_result(pre, policy_id, result) =~= pre.update(
            i,
            (policy_id, result),
        ));
    }
}

/// Appending a policy with no earlier entry is recording its result.
pub proof fn lemma_record_result_append(
    pre: Seq<(PolicyId, ComplianceResultV)>,
    policy_id: PolicyId,
    result: ComplianceResultV,
)
    requires
        forall|j: int| 0 <= j < pre.len() ==> (#[trigger] pre[j]).0 != policy_id,
    ensures
        spec_record_result(pre, policy_id, result) == pre.push((policy_id, result)),
    decreases pre.len(),
{
    if pre.len() == 0 {
        assert(spec_record_result(pre, policy_id, result) =~= pre.push((policy_id, result)));
    } else {
        let tail = pre.subrange(1, pre.len() as int);
        lemma_record_result_append(tail, policy_id, result);
        assert(spec_record_result(pre, policy_id, result) =~= pre.push((policy_id, result)));
    }
}

} // verus!
