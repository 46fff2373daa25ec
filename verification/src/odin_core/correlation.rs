//! The correlation Odin publishes for one expected runtime: what it
//! records of the presence, the lease, the dependencies and the
//! disagreements, when that correlation is ready, and when an unchanged
//! one is kept instead of publishing a new one.
use vstd::prelude::*;
use crate::documents::{copy_opt_string, copy_string, opt_view};
use crate::odin_core::authority::{
    correlation_disagreements, correlation_findings, disagreement_views, duplicate_disagreement,
    opt_str_view, CapabilityRequirement, ObservedCapability, PresenceFinding, TopologyDisagreement,
    DisagreementView,
};
use crate::text::str_eq;

verus! {

pub const ODIN_RUNTIME_TOPOLOGY_CORRELATION_SCHEMA: &'static str =
    "odin.runtime_topology_correlation.v1";

/// The evidence gathered for one expected dependency.
#[derive(Clone, Debug, PartialEq, Eq)]
pub struct DependencyEvidence {
    pub kind: String,
    pub capability: String,
    pub schema: String,
    pub compatibility: String,
    pub provider_id: Option<String>,
    pub provider_authority: Option<String>,
    pub provider_expected_projection_sha256: Option<String>,
    pub provider_endpoint: Option<String>,
    pub observed_capacity: Option<u64>,
    pub provider_evidence_sha256: Option<String>,
    pub ready: bool,
}

pub ghost struct EvidenceView {
    pub kind: Seq<char>,
    pub capability: Seq<char>,
    pub schema: Seq<char>,
    pub compatibility: Seq<char>,
    pub provider_id: Option<Seq<char>>,
    pub provider_authority: Option<Seq<char>>,
    pub provider_expected_projection_sha256: Option<Seq<char>>,
    pub provider_endpoint: Option<Seq<char>>,
    pub observed_capacity: Option<u64>,
    pub provider_evidence_sha256: Option<Seq<char>>,
    pub ready: bool,
}

impl View for DependencyEvidence {
    type V = EvidenceView;

    open spec fn view(&self) -> EvidenceView {
        EvidenceView {
            kind: self.kind@,
            capability: self.capability@,
            schema: self.schema@,
            compatibility: self.compatibility@,
            provider_id: opt_view(self.provider_id),
            provider_authority: opt_view(self.provider_authority),
            provider_expected_projection_sha256: opt_view(self.provider_expected_projection_sha256),
            provider_endpoint: opt_view(self.provider_endpoint),
            observed_capacity: self.observed_capacity,
            provider_evidence_sha256: opt_view(self.provider_evidence_sha256),
            ready: self.ready,
        }
    }
}

pub open spec fn evidence_views(v: Seq<DependencyEvidence>) -> Seq<EvidenceView> {
    v.map_values(|d: DependencyEvidence| d@)
}

pub type CapabilityView = (Seq<char>, Seq<char>, Seq<char>, u64);

pub open spec fn capability_views(v: Seq<ObservedCapability>) -> Seq<CapabilityView> {
    v.map_values(|c: ObservedCapability| (c.capability@, c.schema@, c.compatibility@, c.capacity))
}

/// What the record copies from a current presence.
#[derive(Clone, Debug, PartialEq, Eq)]
pub struct PresenceFacts {
    pub signed_presence_sha256: String,
    pub publisher_sequence: u64,
    pub capabilities: Vec<ObservedCapability>,
}

/// A runtime-topology correlation, before it is signed.
#[derive(Clone, Debug, PartialEq, Eq)]
pub struct CorrelationRecord {
    pub schema_version: String,
    pub target: String,
    pub expected_projection_sha256: String,
    pub expected: bool,
    pub current_activation_sha256: Option<String>,
    pub signed_presence_sha256: Option<String>,
    pub observed_presence_state: Option<String>,
    pub observed_presence_publisher_sequence: Option<u64>,
    pub observed_write_lease_sha256: Option<String>,
    pub observed_capabilities: Vec<ObservedCapability>,
    pub runtime_id: String,
    pub runtime_instance_id: Option<String>,
    pub present: bool,
    pub ready: bool,
    pub dependencies: Vec<DependencyEvidence>,
    pub disagreements: Vec<TopologyDisagreement>,
    pub signer_identity_id: String,
    pub publisher_sequence: u64,
    pub observed_at_unix_millis: u64,
    pub signature_algorithm: String,
}

pub ghost struct CorrelationView {
    pub schema_version: Seq<char>,
    pub target: Seq<char>,
    pub expected_projection_sha256: Seq<char>,
    pub expected: bool,
    pub current_activation_sha256: Option<Seq<char>>,
    pub signed_presence_sha256: Option<Seq<char>>,
    pub observed_presence_state: Option<Seq<char>>,
    pub observed_presence_publisher_sequence: Option<u64>,
    pub observed_write_lease_sha256: Option<Seq<char>>,
    pub observed_capabilities: Seq<CapabilityView>,
    pub runtime_id: Seq<char>,
    pub runtime_instance_id: Option<Seq<char>>,
    pub present: bool,
    pub ready: bool,
    pub dependencies: Seq<EvidenceView>,
    pub disagreements: Seq<DisagreementView>,
    pub signer_identity_id: Seq<char>,
    pub publisher_sequence: u64,
    pub observed_at_unix_millis: u64,
    pub signature_algorithm: Seq<char>,
}

impl View for CorrelationRecord {
    type V = CorrelationView;

    open spec fn view(&self) -> CorrelationView {
        CorrelationView {
            schema_version: self.schema_version@,
            target: self.target@,
            expected_projection_sha256: self.expected_projection_sha256@,
            expected: self.expected,
            current_activation_sha256: opt_view(self.current_activation_sha256),
            signed_presence_sha256: opt_view(self.signed_presence_sha256),
            observed_presence_state: opt_view(self.observed_presence_state),
            observed_presence_publisher_sequence: self.observed_presence_publisher_sequence,
            observed_write_lease_sha256: opt_view(self.observed_write_lease_sha256),
            observed_capabilities: capability_views(self.observed_capabilities@),
            runtime_id: self.runtime_id@,
            runtime_instance_id: opt_view(self.runtime_instance_id),
            present: self.present,
            ready: self.ready,
            dependencies: evidence_views(self.dependencies@),
            disagreements: disagreement_views(self.disagreements@),
            signer_identity_id: self.signer_identity_id@,
            publisher_sequence: self.publisher_sequence,
            observed_at_unix_millis: self.observed_at_unix_millis,
            signature_algorithm: self.signature_algorithm@,
        }
    }
}

/// What one correlation pass starts from: the expected runtime, what was
/// found of its authority, presence, lease and dependencies, and the
/// correlation stored before, if any.
pub struct CorrelationInputs {
    pub target: String,
    pub expected_projection_sha256: String,
    pub current_activation_sha256: Option<String>,
    pub runtime_id: String,
    pub runtime_instance_id: Option<String>,
    pub signer_identity_id: String,
    pub now: u64,
    pub projection_disagreements: Vec<TopologyDisagreement>,
    pub presence: PresenceFinding,
    /// Present exactly when `presence` is current.
    pub presence_facts: Option<PresenceFacts>,
    pub lease_disagreement: Option<TopologyDisagreement>,
    pub capabilities: Vec<CapabilityRequirement>,
    pub write_lease_required: bool,
    pub current_lease_sha256: Option<String>,
    pub dependencies: Vec<DependencyEvidence>,
    pub prior: Option<CorrelationRecord>,
}

/// What a correlation pass decides.
pub enum CorrelationDecision {
    /// The facts are those of the stored correlation: keep it.
    KeepPrior,
    /// Sign and store this correlation.
    Publish(CorrelationRecord),
    /// The stored correlation's publisher sequence cannot be followed.
    SequenceExhausted,
}

/// Every dependency that is not optional is ready.
pub open spec fn dependencies_ready(d: Seq<EvidenceView>) -> bool {
    forall|i: int| 0 <= i < d.len() ==> (#[trigger] d[i]).kind == "optional"@ || d[i].ready
}

/// Two correlations state the same facts: they differ at most in their
/// publisher sequence and observation time.
pub open spec fn same_facts(a: CorrelationView, b: CorrelationView) -> bool {
    a == CorrelationView {
        publisher_sequence: a.publisher_sequence,
        observed_at_unix_millis: a.observed_at_unix_millis,
        ..b
    }
}

pub open spec fn presence_state_of(p: PresenceFinding) -> Option<Seq<char>> {
    match p {
        PresenceFinding::Current { state, .. } => Some(state@),
        _ => None,
    }
}

/// The correlation a pass builds under publisher sequence `sequence`: the
/// findings' sorted disagreements and observed lease, the presence's facts,
/// and ready exactly when the presence is active, nothing disagrees and
/// every required dependency is ready.
pub open spec fn built_correlation(i: CorrelationInputs, sequence: u64) -> CorrelationView {
    let f = correlation_findings(
        disagreement_views(i.projection_disagreements@),
        i.presence,
        match i.lease_disagreement {
            Some(d) => Some(d@),
            None => None,
        },
        i.capabilities@,
        i.write_lease_required,
        opt_view(i.current_lease_sha256),
    );
    let state = presence_state_of(i.presence);
    CorrelationView {
        schema_version: ODIN_RUNTIME_TOPOLOGY_CORRELATION_SCHEMA@,
        target: i.target@,
        expected_projection_sha256: i.expected_projection_sha256@,
        expected: true,
        current_activation_sha256: opt_view(i.current_activation_sha256),
        signed_presence_sha256: match i.presence_facts {
            Some(p) => Some(p.signed_presence_sha256@),
            None => None,
        },
        observed_presence_state: state,
        observed_presence_publisher_sequence: match i.presence_facts {
            Some(p) => Some(p.publisher_sequence),
            None => None,
        },
        observed_write_lease_sha256: f.1,
        observed_capabilities: match i.presence_facts {
            Some(p) => capability_views(p.capabilities@),
            None => Seq::empty(),
        },
        runtime_id: i.runtime_id@,
        runtime_instance_id: opt_view(i.runtime_instance_id),
        present: i.presence is Current,
        ready: state == Some("active"@) && f.0.len() == 0 && dependencies_ready(
            evidence_views(i.dependencies@),
        ),
        dependencies: evidence_views(i.dependencies@),
        disagreements: f.0,
        signer_identity_id: i.signer_identity_id@,
        publisher_sequence: sequence,
        observed_at_unix_millis: i.now,
        signature_algorithm: "ed25519"@,
    }
}

pub ghost enum DecisionView {
    KeepPrior,
    Publish(CorrelationView),
    SequenceExhausted,
}

/// The decision of a pass: the sequence follows the stored correlation's
/// (one without any); an exhausted sequence stops the pass; a correlation
/// with the stored one's facts keeps it; anything else is published.
pub open spec fn correlation_decision(i: CorrelationInputs) -> DecisionView {
    match i.prior {
        None => DecisionView::Publish(built_correlation(i, 1)),
        Some(p) => if p.publisher_sequence == u64::MAX {
            DecisionView::SequenceExhausted
        } else {
            let next = built_correlation(i, (p.publisher_sequence + 1) as u64);
            if same_facts(p@, next) {
                DecisionView::KeepPrior
            } else {
                DecisionView::Publish(next)
            }
        },
    }
}

pub open spec fn decision_view(d: CorrelationDecision) -> DecisionView {
    match d {
        CorrelationDecision::KeepPrior => DecisionView::KeepPrior,
        CorrelationDecision::Publish(r) => DecisionView::Publish(r@),
        CorrelationDecision::SequenceExhausted => DecisionView::SequenceExhausted,
    }
}

fn opt_text_eq(a: &Option<String>, b: &Option<String>) -> (r: bool)
    ensures
        r == (opt_view(*a) == opt_view(*b)),
{
    match (a, b) {
        (Some(x), Some(y)) => str_eq(x.as_str(), y.as_str()),
        (None, None) => true,
        _ => false,
    }
}

fn capabilities_eq(a: &Vec<ObservedCapability>, b: &Vec<ObservedCapability>) -> (r: bool)
    ensures
        r == (capability_views(a@) == capability_views(b@)),
{
    if a.len() != b.len() {
        assert(capability_views(a@).len() != capability_views(b@).len());
        return false;
    }
    let mut i: usize = 0;
    while i < a.len()
        invariant
            a@.len() == b@.len(),
            i <= a@.len(),
            forall|k: int| 0 <= k < i ==> capability_views(a@)[k] == capability_views(b@)[k],
        decreases a@.len() - i,
    {
        let x = &a[i];
        let y = &b[i];
        if !(str_eq(x.capability.as_str(), y.capability.as_str()) && str_eq(x.schema.as_str(), y.schema.as_str())
            && str_eq(x.compatibility.as_str(), y.compatibility.as_str()) && x.capacity == y.capacity) {
            assert(capability_views(a@)[i as int] != capability_views(b@)[i as int]);
            return false;
        }
        i = i + 1;
    }
    assert(capability_views(a@) =~= capability_views(b@));
    true
}

fn disagreements_eq(a: &Vec<TopologyDisagreement>, b: &Vec<TopologyDisagreement>) -> (r: bool)
    ensures
        r == (disagreement_views(a@) == disagreement_views(b@)),
{
    if a.len() != b.len() {
        assert(disagreement_views(a@).len() != disagreement_views(b@).len());
        return false;
    }
    let mut i: usize = 0;
    while i < a.len()
        invariant
            a@.len() == b@.len(),
            i <= a@.len(),
            forall|k: int| 0 <= k < i ==> disagreement_views(a@)[k] == disagreement_views(b@)[k],
        decreases a@.len() - i,
    {
        let x = &a[i];
        let y = &b[i];
        if !(str_eq(x.code.as_str(), y.code.as_str()) && opt_text_eq(&x.expected, &y.expected)
            && opt_text_eq(&x.observed, &y.observed)) {
            assert(disagreement_views(a@)[i as int] != disagreement_views(b@)[i as int]);
            return false;
        }
        i = i + 1;
    }
    assert(disagreement_views(a@) =~= disagreement_views(b@));
    true
}

fn evidence_eq(x: &DependencyEvidence, y: &DependencyEvidence) -> (r: bool)
    ensures
        r == (x@ == y@),
{
    str_eq(x.kind.as_str(), y.kind.as_str()) && str_eq(x.capability.as_str(), y.capability.as_str())
        && str_eq(x.schema.as_str(), y.schema.as_str()) && str_eq(
        x.compatibility.as_str(),
        y.compatibility.as_str(),
    ) && opt_text_eq(&x.provider_id, &y.provider_id) && opt_text_eq(
        &x.provider_authority,
        &y.provider_authority,
    ) && opt_text_eq(
        &x.provider_expected_projection_sha256,
        &y.provider_expected_projection_sha256,
    ) && opt_text_eq(&x.provider_endpoint, &y.provider_endpoint) && x.observed_capacity
        == y.observed_capacity && opt_text_eq(
        &x.provider_evidence_sha256,
        &y.provider_evidence_sha256,
    ) && x.ready == y.ready
}

fn evidences_eq(a: &Vec<DependencyEvidence>, b: &Vec<DependencyEvidence>) -> (r: bool)
    ensures
        r == (evidence_views(a@) == evidence_views(b@)),
{
    if a.len() != b.len() {
        assert(evidence_views(a@).len() != evidence_views(b@).len());
        return false;
    }
    let mut i: usize = 0;
    while i < a.len()
        invariant
            a@.len() == b@.len(),
            i <= a@.len(),
            forall|k: int| 0 <= k < i ==> evidence_views(a@)[k] == evidence_views(b@)[k],
        decreases a@.len() - i,
    {
        if !evidence_eq(&a[i], &b[i]) {
            assert(evidence_views(a@)[i as int] != evidence_views(b@)[i as int]);
            return false;
        }
        i = i + 1;
    }
    assert(evidence_views(a@) =~= evidence_views(b@));
    true
}

/// Whether two correlations state the same facts (see `same_facts`).
pub fn same_correlation_facts(prior: &CorrelationRecord, next: &CorrelationRecord) -> (r: bool)
    ensures
        r == same_facts(prior@, next@),
{
    str_eq(prior.schema_version.as_str(), next.schema_version.as_str()) && str_eq(
        prior.target.as_str(),
        next.target.as_str(),
    ) && str_eq(prior.expected_projection_sha256.as_str(), next.expected_projection_sha256.as_str())
        && prior.expected == next.expected && opt_text_eq(
        &prior.current_activation_sha256,
        &next.current_activation_sha256,
    ) && opt_text_eq(&prior.signed_presence_sha256, &next.signed_presence_sha256) && opt_text_eq(
        &prior.observed_presence_state,
        &next.observed_presence_state,
    ) && prior.observed_presence_publisher_sequence == next.observed_presence_publisher_sequence
        && opt_text_eq(&prior.observed_write_lease_sha256, &next.observed_write_lease_sha256)
        && capabilities_eq(&prior.observed_capabilities, &next.observed_capabilities) && str_eq(
        prior.runtime_id.as_str(),
        next.runtime_id.as_str(),
    ) && opt_text_eq(&prior.runtime_instance_id, &next.runtime_instance_id) && prior.present
        == next.present && prior.ready == next.ready && evidences_eq(
        &prior.dependencies,
        &next.dependencies,
    ) && disagreements_eq(&prior.disagreements, &next.disagreements) && str_eq(
        prior.signer_identity_id.as_str(),
        next.signer_identity_id.as_str(),
    ) && str_eq(prior.signature_algorithm.as_str(), next.signature_algorithm.as_str())
}

fn copy_capabilities(v: &Vec<ObservedCapability>) -> (r: Vec<ObservedCapability>)
    ensures
        capability_views(r@) == capability_views(v@),
{
    let mut out: Vec<ObservedCapability> = Vec::new();
    let mut i: usize = 0;
    while i < v.len()
        invariant
            i <= v@.len(),
            capability_views(out@) == capability_views(v@.subrange(0, i as int)),
        decreases v@.len() - i,
    {
        let c = &v[i];
        let ghost before = out@;
        out.push(
            ObservedCapability {
                capability: copy_string(&c.capability),
                schema: copy_string(&c.schema),
                compatibility: copy_string(&c.compatibility),
                capacity: c.capacity,
            },
        );
        assert(capability_views(out@) =~= capability_views(before).push(capability_views(v@)[i as int]));
        assert(capability_views(v@.subrange(0, i + 1)) =~= capability_views(v@.subrange(0, i as int)).push(
            capability_views(v@)[i as int],
        ));
        i = i + 1;
    }
    assert(v@.subrange(0, v@.len() as int) =~= v@);
    out
}

fn copy_evidence(d: &DependencyEvidence) -> (r: DependencyEvidence)
    ensures
        r@ == d@,
{
    DependencyEvidence {
        kind: copy_string(&d.kind),
        capability: copy_string(&d.capability),
        schema: copy_string(&d.schema),
        compatibility: copy_string(&d.compatibility),
        provider_id: copy_opt_string(&d.provider_id),
        provider_authority: copy_opt_string(&d.provider_authority),
        provider_expected_projection_sha256: copy_opt_string(&d.provider_expected_projection_sha256),
        provider_endpoint: copy_opt_string(&d.provider_endpoint),
        observed_capacity: d.observed_capacity,
        provider_evidence_sha256: copy_opt_string(&d.provider_evidence_sha256),
        ready: d.ready,
    }
}

fn copy_evidences(v: &Vec<DependencyEvidence>) -> (r: Vec<DependencyEvidence>)
    ensures
        evidence_views(r@) == evidence_views(v@),
{
    let mut out: Vec<DependencyEvidence> = Vec::new();
    let mut i: usize = 0;
    while i < v.len()
        invariant
            i <= v@.len(),
            evidence_views(out@) == evidence_views(v@.subrange(0, i as int)),
        decreases v@.len() - i,
    {
        let ghost before = out@;
        out.push(copy_evidence(&v[i]));
        assert(evidence_views(out@) =~= evidence_views(before).push(v@[i as int]@));
        assert(evidence_views(v@.subrange(0, i + 1)) =~= evidence_views(v@.subrange(0, i as int)).push(
            v@[i as int]@,
        ));
        i = i + 1;
    }
    assert(v@.subrange(0, v@.len() as int) =~= v@);
    out
}

fn dependencies_all_ready(d: &Vec<DependencyEvidence>) -> (r: bool)
    ensures
        r == dependencies_ready(evidence_views(d@)),
{
    let mut i: usize = 0;
    while i < d.len()
        invariant
            i <= d@.len(),
            forall|k: int| 0 <= k < i ==> (#[trigger] evidence_views(d@)[k]).kind == "optional"@ || evidence_views(d@)[k].ready,
        decreases d@.len() - i,
    {
        if !(str_eq(d[i].kind.as_str(), "optional") || d[i].ready) {
            assert(!(evidence_views(d@)[i as int].kind == "optional"@ || evidence_views(d@)[i as int].ready));
            return false;
        }
        i = i + 1;
    }
    true
}

/// Builds the correlation of a pass under publisher sequence `sequence`.
fn build_correlation(i: &CorrelationInputs, sequence: u64) -> (r: CorrelationRecord)
    requires
        (i.presence is Current) == (i.presence_facts is Some),
    ensures
        r@ == built_correlation(*i, sequence),
{
    let current_lease = match &i.current_lease_sha256 {
        Some(s) => Some(s.as_str()),
        None => None,
    };
    assert(opt_str_view(current_lease) == opt_view(i.current_lease_sha256));
    let (disagreements, observed_write_lease) = correlation_disagreements(
        &i.projection_disagreements,
        &i.presence,
        &i.lease_disagreement,
        &i.capabilities,
        i.write_lease_required,
        current_lease,
    );
    let state: Option<String> = match &i.presence {
        PresenceFinding::Current { state, .. } => Some(copy_string(state)),
        _ => None,
    };
    let active = match &state {
        Some(s) => str_eq(s.as_str(), "active"),
        None => false,
    };
    let ready = active && disagreements.len() == 0 && dependencies_all_ready(&i.dependencies);
    let (signed, sequence_seen, capabilities) = match &i.presence_facts {
        Some(p) => (
            Some(copy_string(&p.signed_presence_sha256)),
            Some(p.publisher_sequence),
            copy_capabilities(&p.capabilities),
        ),
        None => {
            let empty: Vec<ObservedCapability> = Vec::new();
            assert(capability_views(empty@) =~= Seq::<CapabilityView>::empty());
            (None, None, empty)
        },
    };
    let present = match &i.presence {
        PresenceFinding::Current { .. } => true,
        _ => false,
    };
    CorrelationRecord {
        schema_version: ODIN_RUNTIME_TOPOLOGY_CORRELATION_SCHEMA.to_string(),
        target: copy_string(&i.target),
        expected_projection_sha256: copy_string(&i.expected_projection_sha256),
        expected: true,
        current_activation_sha256: copy_opt_string(&i.current_activation_sha256),
        signed_presence_sha256: signed,
        observed_presence_state: state,
        observed_presence_publisher_sequence: sequence_seen,
        observed_write_lease_sha256: observed_write_lease,
        observed_capabilities: capabilities,
        runtime_id: copy_string(&i.runtime_id),
        runtime_instance_id: copy_opt_string(&i.runtime_instance_id),
        present,
        ready,
        dependencies: copy_evidences(&i.dependencies),
        disagreements,
        signer_identity_id: copy_string(&i.signer_identity_id),
        publisher_sequence: sequence,
        observed_at_unix_millis: i.now,
        signature_algorithm: "ed25519".to_string(),
    }
}

/// Decides one correlation pass: the correlation to sign and store, with
/// its disagreements sorted by code and its readiness taken from those same
/// disagreements; or to keep the stored correlation when nothing but the
/// sequence and time would change; or that the sequence is exhausted.
pub fn decide_correlation(inputs: &CorrelationInputs) -> (r: CorrelationDecision)
    requires
        (inputs.presence is Current) == (inputs.presence_facts is Some),
    ensures
        decision_view(r) == correlation_decision(*inputs),
{
    match &inputs.prior {
        None => CorrelationDecision::Publish(build_correlation(inputs, 1)),
        Some(p) => {
            if p.publisher_sequence == u64::MAX {
                return CorrelationDecision::SequenceExhausted;
            }
            let next = build_correlation(inputs, p.publisher_sequence + 1);
            if same_correlation_facts(p, &next) {
                CorrelationDecision::KeepPrior
            } else {
                CorrelationDecision::Publish(next)
            }
        },
    }
}

/// A correlation is only ready when nothing disagrees: a published
/// correlation that is ready carries no disagreement and an active
/// presence.
pub proof fn law_ready_means_no_disagreement(i: CorrelationInputs)
    ensures
        correlation_decision(i) matches DecisionView::Publish(c) ==> (c.ready ==> c.disagreements.len()
            == 0 && c.observed_presence_state == Some("active"@) && c.present),
{
}

/// Publishing twice from the same inputs, the second time over the first,
/// keeps the first: a correlation whose facts have not changed is not
/// published again.
pub proof fn law_unchanged_facts_are_kept(i: CorrelationInputs, first: CorrelationView)
    requires
        i.prior is None,
        correlation_decision(i) == DecisionView::Publish(first),
    ensures
        forall|p: CorrelationRecord|
            p@ == first && first.publisher_sequence < u64::MAX ==> correlation_decision(
                CorrelationInputs { prior: Some(p), ..i },
            ) == DecisionView::KeepPrior,
{
}

} // verus!
