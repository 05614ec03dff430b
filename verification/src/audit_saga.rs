//! The compliance audit workflow: a saga that collects per-policy results,
//! derives findings from violations, scores overall compliance, and ends in
//! a verified or non-compliant terminal state.

use vstd::prelude::*;
use crate::sagas::{SagaState, StateTransition, SagaMetadata, SagaError, MarkovChain,
    create_root_command};
use crate::value_objects::{PolicyId, ComplianceResult, ComplianceResultV, Severity, Violation,
    ViolationV, clone_vec_deep};
use crate::enforcement_saga::{spec_record_result, spec_compliant_count, spec_has_result,
    spec_pending, contains_id, lemma_record_result_update, lemma_record_result_append};
use crate::events::PolicyEvent;
use crate::commands::{PolicyCommand, SuspendPolicy};

verus! {

broadcast use {vstd::std_specs::vec::group_vec_axioms, vstd::seq::group_seq_axioms};

/// The kind of an audit finding.
#[derive(Debug, Clone, Copy, PartialEq, Eq, Structural)]
pub enum FindingType {
    Violation,
    Weakness,
    Observation,
    Strength,
}

impl DeepView for FindingType {
    type V = FindingType;

    open spec fn deep_view(&self) -> FindingType {
        *self
    }
}

/// The overall compliance standing an audit derives.
#[derive(Debug, Clone, Copy, PartialEq, Eq, Structural)]
pub enum ComplianceStatus {
    FullyCompliant,
    PartiallyCompliant,
    NonCompliant,
    CriticalNonCompliance,
}

/// One finding of an audit: a violation or weakness derived from a failed
/// rule.
#[derive(Debug)]
pub struct AuditFinding {
    /// The policy the finding is about.
    pub policy_id: PolicyId,
    /// Whether the finding is a violation, a weakness, or something milder.
    pub finding_type: FindingType,
    /// The severity carried over from the violated rule.
    pub severity: Severity,
    /// What was found.
    pub description: String,
    /// The supporting evidence.
    pub evidence: Vec<String>,
    /// Whether the finding demands remediation.
    pub remediation_required: bool,
}

/// Mathematical view of an `AuditFinding`.
#[verifier::ext_equal]
pub struct AuditFindingV {
    pub policy_id: PolicyId,
    pub finding_type: FindingType,
    pub severity: Severity,
    pub description: Seq<char>,
    pub evidence: Seq<Seq<char>>,
    pub remediation_required: bool,
}

impl DeepView for AuditFinding {
    type V = AuditFindingV;

    open spec fn deep_view(&self) -> AuditFindingV {
        AuditFindingV {
            policy_id: self.policy_id,
            finding_type: self.finding_type,
            severity: self.severity,
            description: self.description@,
            evidence: self.evidence.deep_view(),
            remediation_required: self.remediation_required,
        }
    }
}

/// The finding one violation yields: a violation finding at high severity
/// and above, a weakness below, demanding remediation from medium severity
/// up, with the rule's description as evidence.
pub open spec fn spec_finding_of(pid: PolicyId, v: ViolationV) -> AuditFindingV {
    AuditFindingV {
        policy_id: pid,
        finding_type: if v.severity.spec_rank() >= Severity::High.spec_rank() {
            FindingType::Violation
        } else {
            FindingType::Weakness
        },
        severity: v.severity,
        description: v.details,
        evidence: seq![v.rule_description],
        remediation_required: v.severity.spec_rank() >= Severity::Medium.spec_rank(),
    }
}

/// The findings a sequence of violations yields, in order.
pub open spec fn spec_findings_of(pid: PolicyId, vs: Seq<ViolationV>) -> Seq<AuditFindingV>
    decreases vs,
{
    if vs.len() == 0 {
        Seq::empty()
    } else {
        seq![spec_finding_of(pid, vs[0])] + spec_findings_of(pid, vs.subrange(1, vs.len() as int))
    }
}

/// The findings one recorded outcome contributes: one per violation of a
/// non-compliant result, none otherwise.
pub open spec fn spec_result_findings(pid: PolicyId, rv: ComplianceResultV) -> Seq<AuditFindingV> {
    match rv {
        ComplianceResultV::NonCompliant { violations } => spec_findings_of(pid, violations),
        _ => Seq::empty(),
    }
}

/// How many findings are critical.
pub open spec fn spec_critical_count(findings: Seq<AuditFindingV>) -> int
    decreases findings,
{
    if findings.len() == 0 {
        0
    } else {
        spec_critical_count(findings.drop_last()) + if findings.last().severity
            == Severity::Critical {
            1int
        } else {
            0int
        }
    }
}

/// The overall standing the audit derives: critical non-compliance when any
/// critical finding exists, fully compliant when every result is compliant,
/// partially compliant when more than half are, non-compliant otherwise.
pub open spec fn spec_audit_status(
    results: Seq<(PolicyId, ComplianceResultV)>,
    findings: Seq<AuditFindingV>,
) -> ComplianceStatus {
    let total = results.len() as int;
    let compliant = spec_compliant_count(results);
    if spec_critical_count(findings) > 0 {
        ComplianceStatus::CriticalNonCompliance
    } else if compliant == total {
        ComplianceStatus::FullyCompliant
    } else if compliant > total / 2 {
        ComplianceStatus::PartiallyCompliant
    } else {
        ComplianceStatus::NonCompliant
    }
}

/// The state a derived standing moves the workflow to: verified only for
/// full compliance.
pub open spec fn spec_audit_state_of(status: ComplianceStatus) -> SagaState {
    if status == ComplianceStatus::FullyCompliant {
        SagaState::ComplianceVerified
    } else {
        SagaState::NonCompliant
    }
}

/// Everything recording one audit result pins down: the result entry is
/// bound, the result's findings are appended, and once every tracked policy
/// has a result the standing is derived and the state follows it. When the
/// recording leaves results incomplete and `adjust_scheduled` is set, a
/// scheduled audit moves to in-progress.
pub open spec fn spec_audit_recorded(
    pre: ComplianceAuditSaga,
    post: ComplianceAuditSaga,
    pid: PolicyId,
    rv: ComplianceResultV,
    adjust_scheduled: bool,
) -> bool {
    let results = spec_record_result(pre.spec_results(), pid, rv);
    let findings = pre.findings.deep_view() + spec_result_findings(pid, rv);
    &&& post.spec_results() == results
    &&& post.findings.deep_view() == findings
    &&& post.policy_ids@ == pre.policy_ids@
    &&& if results.len() == pre.policy_ids@.len() {
        &&& post.overall_compliance == Some(spec_audit_status(results, findings))
        &&& post.current_state == spec_audit_state_of(spec_audit_status(results, findings))
    } else {
        &&& post.overall_compliance == pre.overall_compliance
        &&& post.current_state == if adjust_scheduled && pre.current_state
            == SagaState::AuditScheduled {
            SagaState::AuditInProgress
        } else {
            pre.current_state
        }
    }
}

/// The penalty one finding contributes to the compliance score, in tenths
/// of a point.
pub open spec fn spec_penalty_tenths(severity: Severity) -> int {
    match severity {
        Severity::Critical => 100,
        Severity::High => 50,
        Severity::Medium => 20,
        Severity::Low => 10,
        Severity::Info => 5,
    }
}

/// The total penalty of a sequence of findings, in tenths of a point.
pub open spec fn spec_penalty_sum(findings: Seq<AuditFindingV>) -> int
    decreases findings,
{
    if findings.len() == 0 {
        0
    } else {
        spec_penalty_sum(findings.drop_last()) + spec_penalty_tenths(findings.last().severity)
    }
}

/// The compliance score in tenths of a point: a thousand times the compliant
/// fraction, minus the per-finding severity penalties, floored at zero; an
/// audit with no results scores zero.
pub open spec fn spec_score_tenths(
    results: Seq<(PolicyId, ComplianceResultV)>,
    findings: Seq<AuditFindingV>,
) -> int {
    if results.len() == 0 {
        0
    } else {
        let base = spec_compliant_count(results) * 1000 / (results.len() as int);
        let penalty = spec_penalty_sum(findings);
        if base > penalty {
            base - penalty
        } else {
            0
        }
    }
}

/// The critical findings that demand remediation, in finding order: each one
/// draws a suspension command.
pub open spec fn spec_suspension_findings(findings: Seq<AuditFindingV>) -> Seq<AuditFindingV>
    decreases findings,
{
    if findings.len() == 0 {
        Seq::empty()
    } else {
        let head: Seq<AuditFindingV> = if findings[0].remediation_required && findings[0].severity
            == Severity::Critical {
            seq![findings[0]]
        } else {
            Seq::empty()
        };
        head + spec_suspension_findings(findings.subrange(1, findings.len() as int))
    }
}

/// The descriptions of the findings that demand remediation at high severity
/// and above, in finding order.
pub open spec fn spec_priority_remediations(findings: Seq<AuditFindingV>) -> Seq<Seq<char>>
    decreases findings,
{
    if findings.len() == 0 {
        Seq::empty()
    } else {
        let head: Seq<Seq<char>> = if findings[0].remediation_required
            && findings[0].severity.spec_rank() >= Severity::High.spec_rank() {
            seq![findings[0].description]
        } else {
            Seq::empty()
        };
        head + spec_priority_remediations(findings.subrange(1, findings.len() as int))
    }
}

/// The saga that drives one compliance audit over a set of policies.
#[derive(Debug)]
pub struct ComplianceAuditSaga {
    /// Tracking metadata.
    pub metadata: SagaMetadata,
    /// The policies under audit.
    pub policy_ids: Vec<PolicyId>,
    /// The committed state of the workflow.
    pub current_state: SagaState,
    /// The advisory planning chain.
    pub markov_chain: MarkovChain,
    /// The per-policy results recorded so far, one entry per policy.
    pub audit_results: Vec<(PolicyId, ComplianceResult)>,
    /// The findings derived from the recorded results.
    pub findings: Vec<AuditFinding>,
    /// The derived overall standing, once every policy has a result.
    pub overall_compliance: Option<ComplianceStatus>,
}

impl ComplianceAuditSaga {
    /// The recorded results as a mathematical sequence.
    pub open spec fn spec_results(&self) -> Seq<(PolicyId, ComplianceResultV)> {
        self.audit_results.deep_view()
    }

    /// Creates an audit saga over the given policies.
    pub fn new(policy_ids: Vec<PolicyId>, initiated_by: &str) -> (r: ComplianceAuditSaga)
        ensures
            r.policy_ids@ == policy_ids@,
            r.current_state == SagaState::AuditScheduled,
            r.spec_results().len() == 0,
            r.findings@.len() == 0,
            r.overall_compliance is None,
    {
        let mut markov_chain = MarkovChain::new();
        markov_chain.add_transition(SagaState::AuditScheduled, SagaState::AuditInProgress, 950);
        markov_chain.add_transition(SagaState::AuditScheduled, SagaState::Cancelled, 50);
        markov_chain.add_transition(SagaState::AuditInProgress, SagaState::AuditComplete, 800);
        markov_chain.add_transition(SagaState::AuditInProgress, SagaState::Failed, 200);
        markov_chain.add_transition(SagaState::AuditComplete, SagaState::ComplianceVerified, 600);
        markov_chain.add_transition(SagaState::AuditComplete, SagaState::NonCompliant, 400);
        markov_chain.set_state_reward(SagaState::ComplianceVerified, 100);
        markov_chain.set_state_reward(SagaState::NonCompliant, -50);
        markov_chain.set_state_reward(SagaState::Failed, -100);
        let r = ComplianceAuditSaga {
            metadata: SagaMetadata::new(initiated_by),
            policy_ids,
            current_state: SagaState::AuditScheduled,
            markov_chain,
            audit_results: Vec::new(),
            findings: Vec::new(),
            overall_compliance: None,
        };
        proof {
            assert(r.spec_results() =~= Seq::<(PolicyId, ComplianceResultV)>::empty());
        }
        r
    }

    /// Returns the committed state of the workflow.
    pub fn current_state(&self) -> (r: SagaState)
        ensures
            r == self.current_state,
    {
        self.current_state
    }

    /// The transitions the allowed-transition table admits from each state of
    /// this workflow.
    pub open spec fn spec_available_transitions(state: SagaState) -> Seq<StateTransition> {
        match state {
            SagaState::AuditScheduled => seq![
                StateTransition::StartAudit,
                StateTransition::Cancel,
            ],
            SagaState::AuditInProgress => seq![StateTransition::CompleteAudit],
            SagaState::AuditComplete => seq![
                StateTransition::VerifyCompliance,
                StateTransition::ReportViolation,
            ],
            SagaState::NonCompliant => seq![StateTransition::Remediate],
            _ => Seq::empty(),
        }
    }

    /// Returns the transitions the allowed-transition table admits from the
    /// current state.
    pub fn available_transitions(&self) -> (r: Vec<StateTransition>)
        ensures
            r@ == ComplianceAuditSaga::spec_available_transitions(self.current_state),
    {
        let mut out: Vec<StateTransition> = Vec::new();
        match self.current_state {
            SagaState::AuditScheduled => {
                out.push(StateTransition::StartAudit);
                out.push(StateTransition::Cancel);
            },
            SagaState::AuditInProgress => {
                out.push(StateTransition::CompleteAudit);
            },
            SagaState::AuditComplete => {
                out.push(StateTransition::VerifyCompliance);
                out.push(StateTransition::ReportViolation);
            },
            SagaState::NonCompliant => {
                out.push(StateTransition::Remediate);
            },
            _ => {},
        }
        proof {
            assert(out@ =~= ComplianceAuditSaga::spec_available_transitions(self.current_state));
        }
        out
    }

    /// Returns the advisory probability of one transition, in thousandths.
    pub fn transition_probability(&self, from: &SagaState, to: &SagaState) -> (r: u32)
        ensures
            r == crate::sagas::spec_probability(self.markov_chain.transitions@, *from, *to),
    {
        self.markov_chain.transition_probability(from, to)
    }

    /// Records one policy's audit result, replacing an earlier result for
    /// the same policy, and appends the result's findings. Once every policy
    /// has a result the overall standing is derived and the state follows
    /// it.
    #[verifier::loop_isolation(false)]
    pub fn add_audit_result(&mut self, policy_id: PolicyId, result: ComplianceResult)
        ensures
            spec_audit_recorded(*old(self), *final(self), policy_id, result.deep_view(), false),
    {
        let ghost pre = self.spec_results();
        let ghost pre_findings = self.findings.deep_view();
        let ghost rv = result.deep_view();
        // Derive findings from a non-compliant result.
        match &result {
            ComplianceResult::NonCompliant { violations } => {
                proof {
                    assert(rv == ComplianceResultV::NonCompliant {
                        violations: violations.deep_view(),
                    });
                    assert(violations.deep_view().subrange(
                        0,
                        violations.deep_view().len() as int,
                    ) =~= violations.deep_view());
                }
                let ghost vs = violations.deep_view();
                let mut j: usize = 0;
                while j < violations.len()
                    invariant
                        0 <= j <= violations@.len(),
                        violations@.len() == vs.len(),
                        violations.deep_view() == vs,
                        pre_findings + spec_findings_of(policy_id, vs) == self.findings.deep_view()
                            + spec_findings_of(
                            policy_id,
                            vs.subrange(j as int, vs.len() as int),
                        ),
                        self.spec_results() == pre,
                        self.policy_ids@ == old(self).policy_ids@,
                        self.current_state == old(self).current_state,
                        self.overall_compliance == old(self).overall_compliance,
                    decreases violations@.len() - j,
                {
                    proof {
                        let tail = vs.subrange(j as int, vs.len() as int);
                        assert(tail[0] == vs[j as int]);
                        assert(tail.subrange(1, tail.len() as int) =~= vs.subrange(
                            j + 1,
                            vs.len() as int,
                        ));
                    }
                    let v = &violations[j];
                    let is_severe = v.severity.rank() >= Severity::High.rank();
                    let mut evidence: Vec<String> = Vec::new();
                    evidence.push(v.rule_description.clone());
                    let finding = AuditFinding {
                        policy_id,
                        finding_type: if is_severe {
                            FindingType::Violation
                        } else {
                            FindingType::Weakness
                        },
                        severity: v.severity,
                        description: v.details.clone(),
                        evidence,
                        remediation_required: v.severity.rank() >= Severity::Medium.rank(),
                    };
                    proof {
                        assert(finding.deep_view().evidence =~= seq![vs[j as int].rule_description]);
                        assert(finding.deep_view() =~= spec_finding_of(policy_id, vs[j as int]));
                    }
                    let ghost pre_f = self.findings.deep_view();
                    self.findings.push(finding);
                    j = j + 1;
                    proof {
                        assert(self.findings.deep_view() =~= pre_f.push(
                            spec_finding_of(policy_id, vs[j - 1]),
                        ));
                        assert(pre_findings + spec_findings_of(policy_id, vs)
                            =~= self.findings.deep_view() + spec_findings_of(
                            policy_id,
                            vs.subrange(j as int, vs.len() as int),
                        ));
                    }
                }
                proof {
                    assert(vs.subrange(j as int, vs.len() as int) =~= Seq::<ViolationV>::empty());
                    assert(spec_findings_of(policy_id, vs.subrange(j as int, vs.len() as int))
                        =~= Seq::<AuditFindingV>::empty());
                    assert(self.findings.deep_view() =~= pre_findings + spec_result_findings(
                        policy_id,
                        rv,
                    ));
                }
            },
            _ => {
                proof {
                    assert(spec_result_findings(policy_id, rv) =~= Seq::<AuditFindingV>::empty());
                    assert(self.findings.deep_view() =~= pre_findings + spec_result_findings(
                        policy_id,
                        rv,
                    ));
                }
            },
        }
        // Record the result itself.
        let mut i: usize = 0;
        let mut replaced = false;
        while i < self.audit_results.len() && !replaced
            invariant
                0 <= i <= self.audit_results@.len(),
                self.policy_ids@ == old(self).policy_ids@,
                self.findings.deep_view() == pre_findings + spec_result_findings(policy_id, rv),
                self.current_state == old(self).current_state,
                self.overall_compliance == old(self).overall_compliance,
                !replaced ==> self.spec_results() == pre && forall|j: int|
                    0 <= j < i ==> (#[trigger] pre[j]).0 != policy_id,
                replaced ==> self.spec_results() == spec_record_result(pre, policy_id, rv),
            decreases self.audit_results@.len() - i + (if replaced {
                0int
            } else {
                1int
            }),
        {
            if self.audit_results[i].0.0 == policy_id.0 {
                let copy = result.clone();
                self.audit_results.set(i, (policy_id, copy));
                replaced = true;
                proof {
                    lemma_record_result_update(pre, i as int, policy_id, rv);
                    assert(self.spec_results() =~= pre.update(i as int, (policy_id, rv)));
                }
            } else {
                i = i + 1;
            }
        }
        if !replaced {
            let copy = result.clone();
            self.audit_results.push((policy_id, copy));
            proof {
                lemma_record_result_append(pre, policy_id, rv);
                assert(self.spec_results() =~= pre.push((policy_id, rv)));
            }
        }
        self.metadata.update();
        if self.audit_results.len() == self.policy_ids.len() {
            self.determine_compliance_status();
        }
    }

    /// Derives the overall standing from the recorded results and findings,
    /// and moves the state to verified only for full compliance.
    #[verifier::loop_isolation(false)]
    fn determine_compliance_status(&mut self)
        ensures
            final(self).spec_results() == old(self).spec_results(),
            final(self).findings@ == old(self).findings@,
            final(self).policy_ids@ == old(self).policy_ids@,
            final(self).overall_compliance == Some(
                spec_audit_status(old(self).spec_results(), old(self).findings.deep_view()),
            ),
            final(self).current_state == spec_audit_state_of(
                spec_audit_status(old(self).spec_results(), old(self).findings.deep_view()),
            ),
    {
        let ghost results = self.spec_results();
        let ghost findings_view = self.findings.deep_view();
        let total = self.audit_results.len();
        let mut compliant: usize = 0;
        let mut i: usize = 0;
        proof {
            assert(results.subrange(0, 0) =~= Seq::<(PolicyId, ComplianceResultV)>::empty());
        }
        while i < self.audit_results.len()
            invariant
                0 <= i <= self.audit_results@.len(),
                compliant <= i,
                self.spec_results() == results,
                self.findings@ == old(self).findings@,
                self.policy_ids@ == old(self).policy_ids@,
                self.current_state == old(self).current_state,
                self.overall_compliance == old(self).overall_compliance,
                compliant == spec_compliant_count(results.subrange(0, i as int)),
            decreases self.audit_results@.len() - i,
        {
            if self.audit_results[i].1.is_compliant() {
                compliant = compliant + 1;
            }
            i = i + 1;
            proof {
                assert(results.subrange(0, i as int).drop_last() =~= results.subrange(0, i - 1));
                assert(results.subrange(0, i as int).last() == results[i - 1]);
            }
        }
        proof {
            assert(results.subrange(0, i as int) =~= results);
        }
        let mut critical_findings: usize = 0;
        let mut k: usize = 0;
        proof {
            assert(findings_view.subrange(0, 0) =~= Seq::<AuditFindingV>::empty());
        }
        while k < self.findings.len()
            invariant
                0 <= k <= self.findings@.len(),
                critical_findings <= k,
                self.findings@.len() == findings_view.len(),
                self.spec_results() == results,
                self.findings@ == old(self).findings@,
                self.findings.deep_view() == findings_view,
                self.policy_ids@ == old(self).policy_ids@,
                self.current_state == old(self).current_state,
                self.overall_compliance == old(self).overall_compliance,
                critical_findings == spec_critical_count(findings_view.subrange(0, k as int)),
            decreases self.findings@.len() - k,
        {
            if matches!(self.findings[k].severity, Severity::Critical) {
                critical_findings = critical_findings + 1;
            }
            k = k + 1;
            proof {
                assert(findings_view.subrange(0, k as int).drop_last() =~= findings_view.subrange(
                    0,
                    k - 1,
                ));
                assert(findings_view.subrange(0, k as int).last() == findings_view[k - 1]);
                assert(findings_view[k - 1].severity == self.findings@[k - 1].severity);
            }
        }
        proof {
            assert(findings_view.subrange(0, k as int) =~= findings_view);
        }
        let status: ComplianceStatus = if critical_findings > 0 {
            ComplianceStatus::CriticalNonCompliance
        } else if compliant == total {
            ComplianceStatus::FullyCompliant
        } else if compliant > total / 2 {
            ComplianceStatus::PartiallyCompliant
        } else {
            ComplianceStatus::NonCompliant
        };
        self.overall_compliance = Some(status);
        self.current_state = if matches!(status, ComplianceStatus::FullyCompliant) {
            SagaState::ComplianceVerified
        } else {
            SagaState::NonCompliant
        };
    }

    /// Collects the descriptions of the findings that demand remediation at
    /// high severity and above, in finding order.
    #[verifier::loop_isolation(false)]
    pub fn get_priority_remediations(&self) -> (r: Vec<String>)
        ensures
            r.deep_view() == spec_priority_remediations(self.findings.deep_view()),
    {
        let ghost findings_view = self.findings.deep_view();
        let mut out: Vec<String> = Vec::new();
        proof {
            assert(findings_view.subrange(0, findings_view.len() as int) =~= findings_view);
            assert(out.deep_view() =~= Seq::<Seq<char>>::empty());
        }
        let mut i: usize = 0;
        while i < self.findings.len()
            invariant
                0 <= i <= self.findings@.len(),
                self.findings@.len() == findings_view.len(),
                self.findings.deep_view() == findings_view,
                spec_priority_remediations(findings_view) == out.deep_view()
                    + spec_priority_remediations(
                    findings_view.subrange(i as int, findings_view.len() as int),
                ),
            decreases self.findings@.len() - i,
        {
            proof {
                let tail = findings_view.subrange(i as int, findings_view.len() as int);
                assert(tail[0] == findings_view[i as int]);
                assert(tail.subrange(1, tail.len() as int) =~= findings_view.subrange(
                    i + 1,
                    findings_view.len() as int,
                ));
            }
            let f = &self.findings[i];
            proof {
                assert(f.deep_view() == findings_view[i as int]);
            }
            let ghost pre_out = out.deep_view();
            if f.remediation_required && f.severity.rank() >= Severity::High.rank() {
                out.push(f.description.clone());
                proof {
                    assert(out.deep_view() =~= pre_out.push(findings_view[i as int].description));
                }
            }
            i = i + 1;
            proof {
                assert(spec_priority_remediations(findings_view) =~= out.deep_view()
                    + spec_priority_remediations(
                    findings_view.subrange(i as int, findings_view.len() as int),
                ));
            }
        }
        proof {
            assert(findings_view.subrange(i as int, findings_view.len() as int) =~= Seq::<
                AuditFindingV,
            >::empty());
            assert(out.deep_view() =~= spec_priority_remediations(findings_view));
        }
        out
    }

    /// Scores overall compliance in tenths of a point: a thousand times the
    /// compliant fraction, minus the per-finding severity penalties, floored
    /// at zero. An audit with no results scores zero.
    #[verifier::loop_isolation(false)]
    pub fn compliance_score_tenths(&self) -> (r: u64)
        ensures
            r == spec_score_tenths(self.spec_results(), self.findings.deep_view()),
            r <= 1000,
    {
        let ghost results = self.spec_results();
        let ghost findings_view = self.findings.deep_view();
        if self.audit_results.len() == 0 {
            return 0;
        }
        let total = self.audit_results.len();
        let mut compliant: usize = 0;
        let mut i: usize = 0;
        proof {
            assert(results.subrange(0, 0) =~= Seq::<(PolicyId, ComplianceResultV)>::empty());
        }
        while i < self.audit_results.len()
            invariant
                0 <= i <= self.audit_results@.len(),
                compliant <= i,
                self.spec_results() == results,
                compliant == spec_compliant_count(results.subrange(0, i as int)),
            decreases self.audit_results@.len() - i,
        {
            if self.audit_results[i].1.is_compliant() {
                compliant = compliant + 1;
            }
            i = i + 1;
            proof {
                assert(results.subrange(0, i as int).drop_last() =~= results.subrange(0, i - 1));
                assert(results.subrange(0, i as int).last() == results[i - 1]);
            }
        }
        proof {
            assert(results.subrange(0, i as int) =~= results);
        }
        let base_wide: u128 = ((compliant as u128) * 1000) / (total as u128);
        proof {
            assert((compliant as int) * 1000 <= (total as int) * 1000) by (nonlinear_arith)
                requires
                    compliant <= total,
            ;
            vstd::arithmetic::div_mod::lemma_div_is_ordered(
                (compliant as int) * 1000,
                (total as int) * 1000,
                total as int,
            );
            vstd::arithmetic::div_mod::lemma_div_by_multiple(1000int, total as int);
        }
        let base: u64 = base_wide as u64;
        let mut penalty: u64 = 0;
        let mut k: usize = 0;
        proof {
            assert(findings_view.subrange(0, 0) =~= Seq::<AuditFindingV>::empty());
        }
        while k < self.findings.len()
            invariant
                0 <= k <= self.findings@.len(),
                self.findings@.len() == findings_view.len(),
                self.findings.deep_view() == findings_view,
                penalty <= 1100,
                penalty as int == spec_penalty_sum(findings_view.subrange(0, k as int))
                    || (penalty > 1000 && spec_penalty_sum(
                    findings_view.subrange(0, k as int),
                ) >= penalty),
            decreases self.findings@.len() - k,
        {
            let p: u64 = match self.findings[k].severity {
                Severity::Critical => 100,
                Severity::High => 50,
                Severity::Medium => 20,
                Severity::Low => 10,
                Severity::Info => 5,
            };
            proof {
                assert(findings_view[k as int].severity == self.findings@[k as int].severity);
            }
            if penalty <= 1000 {
                penalty = penalty + p;
            }
            k = k + 1;
            proof {
                assert(findings_view.subrange(0, k as int).drop_last() =~= findings_view.subrange(
                    0,
                    k - 1,
                ));
                assert(findings_view.subrange(0, k as int).last() == findings_view[k - 1]);
                assert(spec_penalty_tenths(findings_view[k - 1].severity) == p);
            }
        }
        proof {
            assert(findings_view.subrange(0, k as int) =~= findings_view);
        }
        if base > penalty {
            base - penalty
        } else {
            0
        }
    }

    /// Everything applying one event pins down: an evaluation, violation or
    /// compliance event for a tracked policy records its audit result (an
    /// evaluation event also moves a scheduled audit to in-progress); other
    /// events change nothing.
    pub open spec fn spec_apply_post(
        pre: ComplianceAuditSaga,
        event: PolicyEvent,
        post: ComplianceAuditSaga,
        r: Result<(), SagaError>,
    ) -> bool {
        &&& r is Ok
        &&& match event {
            PolicyEvent::PolicyEvaluated(e) => {
                if pre.policy_ids@.contains(e.policy_id) {
                    spec_audit_recorded(pre, post, e.policy_id, e.result.deep_view(), true)
                } else {
                    post == pre
                }
            },
            PolicyEvent::PolicyViolationDetected(e) => {
                if pre.policy_ids@.contains(e.policy_id) {
                    spec_audit_recorded(
                        pre,
                        post,
                        e.policy_id,
                        ComplianceResultV::NonCompliant { violations: e.violations.deep_view() },
                        false,
                    )
                } else {
                    post == pre
                }
            },
            PolicyEvent::PolicyCompliancePassed(e) => {
                if pre.policy_ids@.contains(e.policy_id) {
                    spec_audit_recorded(pre, post, e.policy_id, ComplianceResultV::Compliant, false)
                } else {
                    post == pre
                }
            },
            _ => post == pre,
        }
    }

    /// Applies one observed event, per `spec_apply_post`.
    pub fn apply_event(&mut self, event: &PolicyEvent) -> (r: Result<(), SagaError>)
        ensures
            ComplianceAuditSaga::spec_apply_post(*old(self), *event, *final(self), r),
    {
        match event {
            PolicyEvent::PolicyEvaluated(e) => {
                if contains_id(&self.policy_ids, e.policy_id) {
                    let result = e.result.clone();
                    self.add_audit_result(e.policy_id, result);
                    if matches!(self.current_state, SagaState::AuditScheduled) {
                        self.current_state = SagaState::AuditInProgress;
                    }
                }
                Ok(())
            },
            PolicyEvent::PolicyViolationDetected(e) => {
                if contains_id(&self.policy_ids, e.policy_id) {
                    let result = ComplianceResult::NonCompliant {
                        violations: clone_vec_deep(&e.violations),
                    };
                    proof {
                        assert(result.deep_view() == ComplianceResultV::NonCompliant {
                            violations: e.violations.deep_view(),
                        });
                    }
                    self.add_audit_result(e.policy_id, result);
                }
                Ok(())
            },
            PolicyEvent::PolicyCompliancePassed(e) => {
                if contains_id(&self.policy_ids, e.policy_id) {
                    self.add_audit_result(e.policy_id, ComplianceResult::Compliant);
                }
                Ok(())
            },
            _ => Ok(()),
        }
    }

    /// Derives the follow-up commands of the current state: one evaluation
    /// request per tracked policy still without a result while the audit is
    /// scheduled or running, and one suspension command per critical finding
    /// that demands remediation once non-compliance is established.
    #[verifier::loop_isolation(false)]
    /// Everything command derivation pins down: one evaluation request per
    /// tracked policy still without a result while the audit is scheduled or
    /// running, one suspension command per critical finding demanding
    /// remediation once non-compliance is established, nothing otherwise.
    pub open spec fn spec_commands_post(
        s: ComplianceAuditSaga,
        cmds: Seq<PolicyCommand>,
    ) -> bool {
        &&& s.current_state == SagaState::AuditScheduled || s.current_state
            == SagaState::AuditInProgress ==> {
            let pending = spec_pending(s.policy_ids@, s.spec_results());
            &&& cmds.len() == pending.len()
            &&& forall|k: int|
                0 <= k < pending.len() ==> ((#[trigger] cmds[k]) matches
                    PolicyCommand::EvaluatePolicy(c) && c.policy_id == pending[k])
        }
        &&& s.current_state == SagaState::NonCompliant ==> {
            let suspensions = spec_suspension_findings(s.findings.deep_view());
            &&& cmds.len() == suspensions.len()
            &&& forall|k: int|
                0 <= k < suspensions.len() ==> ((#[trigger] cmds[k]) matches
                    PolicyCommand::SuspendPolicy(c) && c.policy_id == suspensions[k].policy_id
                    && c.reason@ == "critical compliance violation: "@
                    + suspensions[k].description)
        }
        &&& s.current_state != SagaState::AuditScheduled && s.current_state
            != SagaState::AuditInProgress && s.current_state != SagaState::NonCompliant
            ==> cmds.len() == 0
    }

    /// Derives the follow-up commands of the current state, per
    /// `spec_commands_post`.
    #[verifier::loop_isolation(false)]
    pub fn get_commands(&self) -> (r: Vec<PolicyCommand>)
        ensures
            ComplianceAuditSaga::spec_commands_post(*self, r@),
    {
        let mut commands: Vec<PolicyCommand> = Vec::new();
        match self.current_state {
            SagaState::AuditScheduled | SagaState::AuditInProgress => {
                let ghost ids = self.policy_ids@;
                let ghost results = self.spec_results();
                let ghost pending_all = spec_pending(ids, results);
                let ghost emitted: Seq<PolicyId> = Seq::empty();
                let mut emitted_ghost: Ghost<Seq<PolicyId>> = Ghost(emitted);
                proof {
                    assert(ids.subrange(0, ids.len() as int) =~= ids);
                }
                let mut i: usize = 0;
                while i < self.policy_ids.len()
                    invariant
                        0 <= i <= ids.len(),
                        self.policy_ids@ == ids,
                        self.spec_results() == results,
                        commands@.len() == emitted_ghost@.len(),
                        forall|k: int|
                            0 <= k < emitted_ghost@.len() ==> ((#[trigger] commands@[k]) matches
                                PolicyCommand::EvaluatePolicy(c) && c.policy_id
                                == emitted_ghost@[k]),
                        pending_all == emitted_ghost@ + spec_pending(
                            ids.subrange(i as int, ids.len() as int),
                            results,
                        ),
                    decreases ids.len() - i,
                {
                    proof {
                        let tail = ids.subrange(i as int, ids.len() as int);
                        assert(tail[0] == ids[i as int]);
                        assert(tail.subrange(1, tail.len() as int) =~= ids.subrange(
                            i + 1,
                            ids.len() as int,
                        ));
                    }
                    let pid = self.policy_ids[i];
                    if !self.has_result_for(&pid) {
                        let context = crate::value_objects::EvaluationContext::new().with_field(
                            "audit_mode",
                            crate::value_objects::Value::Bool(true),
                        );
                        commands.push(PolicyCommand::EvaluatePolicy(
                            crate::commands::EvaluatePolicy {
                                identity: create_root_command(),
                                policy_id: pid,
                                context,
                                requester: self.metadata.initiated_by.clone(),
                                purpose: String::from_str("compliance audit"),
                            },
                        ));
                        proof {
                            emitted_ghost@ = emitted_ghost@.push(pid);
                            assert(pending_all =~= emitted_ghost@ + spec_pending(
                                ids.subrange(i + 1, ids.len() as int),
                                results,
                            ));
                        }
                    } else {
                        proof {
                            assert(pending_all =~= emitted_ghost@ + spec_pending(
                                ids.subrange(i + 1, ids.len() as int),
                                results,
                            ));
                        }
                    }
                    i = i + 1;
                }
                proof {
                    assert(ids.subrange(i as int, ids.len() as int) =~= Seq::<PolicyId>::empty());
                    assert(pending_all =~= emitted_ghost@);
                }
            },
            SagaState::NonCompliant => {
                let ghost findings_view = self.findings.deep_view();
                let ghost suspensions_all = spec_suspension_findings(findings_view);
                let ghost emitted: Seq<AuditFindingV> = Seq::empty();
                let mut emitted_ghost: Ghost<Seq<AuditFindingV>> = Ghost(emitted);
                proof {
                    assert(findings_view.subrange(0, findings_view.len() as int)
                        =~= findings_view);
                }
                let mut i: usize = 0;
                while i < self.findings.len()
                    invariant
                        0 <= i <= self.findings@.len(),
                        self.findings@.len() == findings_view.len(),
                        self.findings.deep_view() == findings_view,
                        commands@.len() == emitted_ghost@.len(),
                        forall|k: int|
                            0 <= k < emitted_ghost@.len() ==> ((#[trigger] commands@[k]) matches
                                PolicyCommand::SuspendPolicy(c) && c.policy_id
                                == emitted_ghost@[k].policy_id && c.reason@
                                == "critical compliance violation: "@
                                + emitted_ghost@[k].description),
                        suspensions_all == emitted_ghost@ + spec_suspension_findings(
                            findings_view.subrange(i as int, findings_view.len() as int),
                        ),
                    decreases self.findings@.len() - i,
                {
                    proof {
                        let tail = findings_view.subrange(i as int, findings_view.len() as int);
                        assert(tail[0] == findings_view[i as int]);
                        assert(tail.subrange(1, tail.len() as int) =~= findings_view.subrange(
                            i + 1,
                            findings_view.len() as int,
                        ));
                    }
                    let f = &self.findings[i];
                    proof {
                        assert(f.deep_view() == findings_view[i as int]);
                    }
                    if f.remediation_required && matches!(f.severity, Severity::Critical) {
                        let mut reason = String::from_str("critical compliance violation: ");
                        reason.append(f.description.as_str());
                        commands.push(PolicyCommand::SuspendPolicy(SuspendPolicy {
                            identity: create_root_command(),
                            policy_id: f.policy_id,
                            suspended_by: self.metadata.initiated_by.clone(),
                            reason,
                            expected_resume_date: None,
                        }));
                        proof {
                            emitted_ghost@ = emitted_ghost@.push(findings_view[i as int]);
                            assert(suspensions_all =~= emitted_ghost@ + spec_suspension_findings(
                                findings_view.subrange(i + 1, findings_view.len() as int),
                            ));
                        }
                    } else {
                        proof {
                            assert(suspensions_all =~= emitted_ghost@ + spec_suspension_findings(
                                findings_view.subrange(i + 1, findings_view.len() as int),
                            ));
                        }
                    }
                    i = i + 1;
                }
                proof {
                    assert(findings_view.subrange(i as int, findings_view.len() as int) =~= Seq::<
                        AuditFindingV,
                    >::empty());
                    assert(suspensions_all =~= emitted_ghost@);
                }
            },
            _ => {},
        }
        commands
    }

    /// Returns whether a result is recorded for the policy.
    #[verifier::loop_isolation(false)]
    fn has_result_for(&self, policy_id: &PolicyId) -> (r: bool)
        ensures
            r == spec_has_result(self.spec_results(), *policy_id),
    {
        let mut i: usize = 0;
        while i < self.audit_results.len()
            invariant
                0 <= i <= self.audit_results@.len(),
                forall|j: int|
                    0 <= j < i ==> (#[trigger] self.spec_results()[j]).0 != *policy_id,
            decreases self.audit_results@.len() - i,
        {
            if self.audit_results[i].0.0 == policy_id.0 {
                proof {
                    assert(self.spec_results()[i as int].0 == *policy_id);
                }
                return true;
            }
            i = i + 1;
        }
        false
    }

    /// Returns whether the workflow reached a terminal state.
    pub fn is_complete(&self) -> (r: bool)
        ensures
            r == (self.current_state == SagaState::ComplianceVerified || self.current_state
                == SagaState::NonCompliant || self.current_state == SagaState::Cancelled),
    {
        matches!(
            self.current_state,
            SagaState::ComplianceVerified | SagaState::NonCompliant | SagaState::Cancelled
        )
    }

    /// Returns whether the workflow failed.
    pub fn has_failed(&self) -> (r: bool)
        ensures
            r == (self.current_state == SagaState::Failed),
    {
        matches!(self.current_state, SagaState::Failed)
    }
}

} // verus!
