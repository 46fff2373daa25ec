use std::collections::VecDeque;

use odin::odin_core::authority::{
    classify_current_lease, correlate_write_lease, correlation_disagreements, correlation_ready,
    dependency_capacity_and_readiness, managed_dependency_targets, missing_presence_disagreements,
    next_publisher_sequence, presence_store_key, push_disagreement, rfc3339_millis,
    runtime_authority_disagreements, runtime_presence_anchor_id, sort_disagreements_by_code,
    ActivationFacts, AdmittedPresence, AnchorFacts, AuthenticationPolicy, CapabilityRequirement,
    CultCacheIdunnProjectionSource, CultCacheOdinTopologyStore, DependencyRequirement,
    DependencyStatus, ExpectedFacts, LeaseFacts, ObservedCapability, PresenceFinding,
    TopologyDisagreement,
};
use odin::odin_core::authority::{Clock, SystemClock};
use odin::odin_core::correlation::{
    decide_correlation, same_correlation_facts, CorrelationDecision, CorrelationInputs,
    DependencyEvidence, PresenceFacts,
};
use odin::odin_core::daemon_options::{parse_options, OptionsError};
use odin::odin_core::daemon::{
    document_type_for_schema, exact_self_presence_query, query_allows, recent_warming_proof,
    remember_recent_warming_proof, validate_snapshot_filters, SchemaIdFault, SnapshotFilterFault,
    MAX_RECENT_WARMING_PROOFS, WARMING_PROOF_LIFETIME_MILLIS,
};

#[test]
fn schema_to_document_type_is_versioned_and_deterministic() {
    assert_eq!(
        document_type_for_schema("heimdall.command_boundary.v1").unwrap(),
        "heimdall.command_boundary"
    );
    for value in ["heimdall.command_boundary", "heimdall.v", ".v1", " x.v1"] {
        assert!(document_type_for_schema(value).is_err());
    }
}

#[test]
fn schema_id_faults_name_their_cause() {
    assert_eq!(document_type_for_schema("").unwrap_err(), SchemaIdFault::EmptyOrPadded);
    assert_eq!(document_type_for_schema("x.v1 ").unwrap_err(), SchemaIdFault::EmptyOrPadded);
    assert_eq!(document_type_for_schema("plain").unwrap_err(), SchemaIdFault::NoVersionSuffix);
    assert_eq!(document_type_for_schema("a.v1x").unwrap_err(), SchemaIdFault::InvalidVersionSuffix);
    assert_eq!(document_type_for_schema("a.v2.b.v10").unwrap(), "a.v2.b");
    assert_eq!(
        SchemaIdFault::NoVersionSuffix.message(),
        "provider schema id has no explicit version suffix"
    );
}

#[test]
fn first_odin_accepts_only_recent_provider_owned_warming_proofs() {
    let mut proofs = VecDeque::new();
    remember_recent_warming_proof(&mut proofs, "warming-one".into(), 100);
    assert!(recent_warming_proof(
        &proofs,
        "warming-one",
        100 + WARMING_PROOF_LIFETIME_MILLIS,
    ));
    assert!(!recent_warming_proof(
        &proofs,
        "warming-one",
        101 + WARMING_PROOF_LIFETIME_MILLIS,
    ));
    assert!(!recent_warming_proof(&proofs, "foreign-proof", 100));

    for index in 0..=MAX_RECENT_WARMING_PROOFS {
        remember_recent_warming_proof(&mut proofs, format!("warming-{index}"), 200);
    }
    assert_eq!(proofs.len(), MAX_RECENT_WARMING_PROOFS);
    assert_eq!(proofs.back().unwrap().0, "warming-64");
    assert!(!proofs.iter().any(|(proof, _)| proof == "warming-one"));
}

#[test]
fn expired_warming_proofs_leave_from_the_front() {
    let mut proofs = VecDeque::new();
    remember_recent_warming_proof(&mut proofs, "old".into(), 0);
    remember_recent_warming_proof(&mut proofs, "new".into(), 70_000);
    assert_eq!(proofs.len(), 1);
    assert_eq!(proofs[0].0, "new");
    assert!(recent_warming_proof(&proofs, "new", 10));
}

#[test]
fn policy_defaults_and_store_keys() {
    let policy = AuthenticationPolicy::default();
    assert_eq!(policy.presence_maximum_age_millis, 30_000);
    assert_eq!(policy.correlation_maximum_future_skew_millis, 5_000);
    assert_eq!(runtime_presence_anchor_id("odin"), "root/odin/runtime-presence");
    assert_eq!(presence_store_key("odin", "signer"), "odin/signer");
    assert_eq!(CultCacheOdinTopologyStore::new("/var/odin.cc".to_string()).path(), "/var/odin.cc");
    assert_eq!(CultCacheIdunnProjectionSource::new("/p.cc".to_string()).path(), "/p.cc");
}

#[test]
fn admitted_presence_is_stamped_in_rfc3339() {
    let presence = AdmittedPresence::new(vec![1, 2], 0).unwrap();
    assert_eq!(presence.canonical_bytes, vec![1, 2]);
    assert!(presence.stored_at.starts_with("1970-01-01T00:00:00"));
    assert_eq!(rfc3339_millis(1_782_000_000_123).unwrap(), "2026-06-21T00:00:00.123Z");
    assert!(rfc3339_millis(u64::MAX).is_err());
}

fn expected() -> ExpectedFacts {
    ExpectedFacts {
        target: "odin".to_string(),
        runtime_id: "runtime-1".to_string(),
        expected_signer_identity_id: "signer".to_string(),
        canonical_sha256: "exp-sha".to_string(),
        write_lease_required: true,
        plan_id: "plan".to_string(),
        incarnation_id: "inc".to_string(),
        sealed_release_id: "release".to_string(),
        state_schema_generation: Some("state-v1".to_string()),
        state_contract_sha256: Some("contract".to_string()),
    }
}

fn anchor() -> AnchorFacts {
    AnchorFacts {
        trust_anchor_id: "root/odin/runtime-presence".to_string(),
        service_id: "odin".to_string(),
        runtime_id: "runtime-1".to_string(),
        signer_identity_id: "signer".to_string(),
        signing_purpose: "purpose".to_string(),
        signed_schema: "schema".to_string(),
        bound_at_unix_millis: 10,
        expires_at_unix_millis: Some(100),
    }
}

fn activation() -> ActivationFacts {
    ActivationFacts {
        idunn_signer_identity_id: "idunn".to_string(),
        expected_projection_sha256: "exp-sha".to_string(),
        runtime_id: "runtime-1".to_string(),
        runtime_instance_id: "instance-1".to_string(),
        canonical_sha256: "act-sha".to_string(),
    }
}

fn codes(d: &[TopologyDisagreement]) -> Vec<String> {
    d.iter().map(|x| x.code.clone()).collect()
}

#[test]
fn exact_projection_raises_no_authority_disagreement() {
    let d = runtime_authority_disagreements(
        &expected(),
        &Some(anchor()),
        &Some(activation()),
        "idunn",
        "purpose",
        "schema",
        50,
    );
    assert!(d.is_empty());
}

#[test]
fn authority_disagreements_come_sorted_by_code() {
    let mut a = anchor();
    a.service_id = "other".to_string();
    a.expires_at_unix_millis = None;
    a.bound_at_unix_millis = 60;
    let mut act = activation();
    act.idunn_signer_identity_id = "mallory".to_string();
    let d = runtime_authority_disagreements(&expected(), &Some(a), &Some(act), "idunn", "purpose", "schema", 50);
    assert_eq!(codes(&d), vec!["activation-idunn-signer", "provider-service-id", "provider-trust-anchor-time"]);
    assert_eq!(d[2].expected.as_deref(), Some("current-at:50"));
    assert_eq!(d[2].observed.as_deref(), Some("bound:60;expires:none"));
    let missing = runtime_authority_disagreements(&expected(), &None, &None, "idunn", "purpose", "schema", 50);
    assert_eq!(codes(&missing), vec!["current-activation-missing", "provider-trust-anchor-missing"]);
    let mut sorted = d.clone();
    sorted.extend(missing);
    let resorted = sort_disagreements_by_code(&sorted);
    let mut expected_codes = codes(&sorted);
    expected_codes.sort();
    assert_eq!(codes(&resorted), expected_codes);
}

fn lease() -> LeaseFacts {
    LeaseFacts {
        target: "odin".to_string(),
        expected_projection_sha256: "exp-sha".to_string(),
        plan_id: "plan".to_string(),
        incarnation_id: "inc".to_string(),
        sealed_release_id: "release".to_string(),
        activation_witness_sha256: "act-sha".to_string(),
        state_schema_generation: "state-v1".to_string(),
        state_contract_sha256: "contract".to_string(),
        runtime_id: "runtime-1".to_string(),
        runtime_instance_id: "instance-1".to_string(),
        canonical_sha256: "lease-sha".to_string(),
    }
}

#[test]
fn a_binding_lease_is_current_and_a_stray_one_disagrees() {
    let (current, disagreement) = classify_current_lease(&expected(), &Some(activation()), &Some(lease()));
    assert_eq!(current.as_deref(), Some("lease-sha"));
    assert!(disagreement.is_none());
    let (current, disagreement) = classify_current_lease(&expected(), &None, &Some(lease()));
    assert!(current.is_none());
    let disagreement = disagreement.unwrap();
    assert_eq!(disagreement.code, "projected-write-lease");
    assert_eq!(disagreement.expected.as_deref(), Some("expected:exp-sha;activation:none"));
    assert_eq!(classify_current_lease(&expected(), &Some(activation()), &None), (None, None));
}

#[test]
fn write_leases_correlate_with_the_current_one() {
    let mut d = Vec::new();
    assert_eq!(correlate_write_lease(true, Some("l"), Some("l"), "active", &mut d).as_deref(), Some("l"));
    assert!(d.is_empty());
    assert!(correlate_write_lease(true, None, None, "warming", &mut d).is_none());
    assert!(d.is_empty());
    assert!(correlate_write_lease(true, None, None, "active", &mut d).is_none());
    assert_eq!(d[0].code, "write-lease");
    assert_eq!(d[0].expected.as_deref(), Some("current-idunn-process-write-lease"));
    assert!(correlate_write_lease(false, None, Some("x"), "active", &mut d).is_none());
    assert_eq!(d[1].code, "unexpected-write-lease");
    push_disagreement(&mut d, "same", Some("a".to_string()), Some("a".to_string()));
    assert_eq!(d.len(), 2);
    push_disagreement(&mut d, "differs", Some("a".to_string()), None);
    assert_eq!(d.len(), 3);
}

fn requirement(provider: Option<&str>, authority: Option<&str>) -> DependencyRequirement {
    DependencyRequirement {
        kind: "required".to_string(),
        capability: "data".to_string(),
        schema: "data.v1".to_string(),
        compatibility: "v1".to_string(),
        minimum_capacity: 2,
        provider_id: provider.map(str::to_string),
        provider_authority: authority.map(str::to_string),
        provider_expected_projection_sha256: None,
        provider_endpoint: None,
    }
}

#[test]
fn dependencies_are_ready_only_with_enough_capacity() {
    let reqs = vec![
        requirement(Some("a"), Some("managed-incarnation")),
        requirement(Some("b"), Some("static")),
        requirement(None, Some("managed-incarnation")),
        requirement(Some("c"), Some("managed-incarnation")),
    ];
    assert_eq!(managed_dependency_targets(&reqs), vec!["a".to_string(), "c".to_string()]);
    let caps = vec![
        ObservedCapability { capability: "data".to_string(), schema: "data.v0".to_string(), compatibility: "v1".to_string(), capacity: 9 },
        ObservedCapability { capability: "data".to_string(), schema: "data.v1".to_string(), compatibility: "v1".to_string(), capacity: 1 },
        ObservedCapability { capability: "data".to_string(), schema: "data.v1".to_string(), compatibility: "v1".to_string(), capacity: 5 },
    ];
    assert_eq!(dependency_capacity_and_readiness(true, &caps, &reqs[0]), (Some(1), false));
    assert_eq!(dependency_capacity_and_readiness(true, &caps[2..].to_vec(), &reqs[0]), (Some(5), true));
    assert_eq!(dependency_capacity_and_readiness(false, &caps[2..].to_vec(), &reqs[0]), (Some(5), false));
    assert_eq!(dependency_capacity_and_readiness(true, &Vec::new(), &reqs[0]), (None, false));
    let deps = vec![
        DependencyStatus { kind: "optional".to_string(), ready: false },
        DependencyStatus { kind: "required".to_string(), ready: true },
    ];
    assert!(correlation_ready(Some("active"), true, &deps));
    assert!(!correlation_ready(Some("warming"), true, &deps));
    assert!(!correlation_ready(Some("active"), false, &deps));
    assert!(!correlation_ready(None, true, &Vec::new()));
    assert_eq!(next_publisher_sequence(None), Some(1));
    assert_eq!(next_publisher_sequence(Some(41)), Some(42));
    assert_eq!(next_publisher_sequence(Some(u64::MAX)), None);
}

#[test]
fn a_missing_presence_lists_every_expected_capability() {
    let caps = vec![CapabilityRequirement {
        capability: "data".to_string(),
        schema: "data.v1".to_string(),
        compatibility: "v1".to_string(),
        minimum_capacity: 1,
    }];
    let d = missing_presence_disagreements(&caps);
    assert_eq!(codes(&d), vec!["signed-presence-missing", "expected-capability-000-missing"]);
    assert_eq!(d[1].expected.as_deref(), Some("data/data.v1/v1 capacity>=1"));
    let (all, lease) = correlation_disagreements(
        &vec![TopologyDisagreement { code: "zeta".to_string(), expected: None, observed: None }],
        &PresenceFinding::Absent,
        &None,
        &caps,
        true,
        Some("l"),
    );
    assert!(lease.is_none());
    assert_eq!(codes(&all), vec!["expected-capability-000-missing", "signed-presence-missing", "zeta"]);
    let (all, lease) = correlation_disagreements(
        &Vec::new(),
        &PresenceFinding::Current { disagreements: Vec::new(), state: "active".to_string(), write_lease_sha256: Some("l".to_string()) },
        &None,
        &caps,
        true,
        Some("l"),
    );
    assert!(all.is_empty());
    assert_eq!(lease.as_deref(), Some("l"));
}

const PRESENCE_SCHEMA: &str = "gamecult.runtime_presence_health.v1";

#[test]
fn only_exact_singleton_self_presence_query_is_a_route_challenge() {
    let schema_ids = Some(vec![PRESENCE_SCHEMA.to_string()]);
    let record_keys = Some(vec!["odin".to_string()]);
    assert!(exact_self_presence_query(&schema_ids, &record_keys, PRESENCE_SCHEMA));
    assert!(!exact_self_presence_query(&schema_ids, &None, PRESENCE_SCHEMA));
    assert!(!exact_self_presence_query(
        &schema_ids,
        &Some(vec!["odin".to_string(), "other".to_string()]),
        PRESENCE_SCHEMA
    ));
}

#[test]
fn snapshot_filters_must_be_distinct_nonempty_and_unpadded() {
    let some = |values: &[&str]| Some(values.iter().map(|v| v.to_string()).collect::<Vec<_>>());
    assert_eq!(validate_snapshot_filters("challenge", &some(&["a", "b"]), &None), Ok(()));
    assert_eq!(
        validate_snapshot_filters(" challenge", &None, &None),
        Err(SnapshotFilterFault::MessageIdEmptyOrPadded)
    );
    assert_eq!(
        validate_snapshot_filters("m", &some(&[]), &None),
        Err(SnapshotFilterFault::SchemaFilterEmpty)
    );
    assert_eq!(
        validate_snapshot_filters("m", &some(&["a", "a"]), &None),
        Err(SnapshotFilterFault::SchemaFilterInvalid)
    );
    assert_eq!(
        validate_snapshot_filters("m", &None, &some(&["k "])),
        Err(SnapshotFilterFault::RecordKeyFilterInvalid)
    );
    assert!(query_allows(&some(&["s"]), &None, "s", "anything"));
    assert!(!query_allows(&some(&["s"]), &some(&["k"]), "s", "other"));
    assert!(query_allows(&None, &None, "x", "y"));
}

fn owned(values: &[&str]) -> Vec<String> {
    values.iter().map(|v| v.to_string()).collect()
}

#[test]
fn options_are_exact_and_absolute() {
    let parsed = parse_options(&owned(&[
        "--store",
        "/var/lib/gamecult/odin-v2/topology.cc",
        "--idunn-projection",
        "/var/lib/gamecult/idunn-projection/topology.cc",
        "--idunn-anchor",
        "/etc/gamecult/idunn/idunn-public-anchor.cc",
    ]))
    .unwrap();
    assert_eq!(parsed.store, "/var/lib/gamecult/odin-v2/topology.cc");
    assert!(parse_options(&owned(&[
        "--store",
        "relative",
        "--idunn-projection",
        "/p",
        "--idunn-anchor",
        "/a"
    ]))
    .is_err());
}

#[test]
fn options_report_each_refusal_in_order() {
    let err = |a: &[&str]| parse_options(&owned(a)).unwrap_err();
    assert_eq!(err(&["store", "/s"]), OptionsError::ExpectedOption("store".to_string()));
    assert_eq!(err(&["store", "/s"]).message(), "expected --option, got \"store\"");
    assert_eq!(err(&["--verbose", "x"]).message(), "unsupported Odin option --verbose");
    assert_eq!(err(&["--store"]), OptionsError::MissingValue("store".to_string()));
    assert_eq!(
        err(&["--store", "/s", "--store", "/t"]).message(),
        "duplicate Odin option --store"
    );
    assert_eq!(err(&[]).message(), "--store is required");
    assert_eq!(
        err(&["--store", "/s", "--idunn-anchor", "/a"]),
        OptionsError::Required("idunn-projection".to_string())
    );
    assert_eq!(
        err(&["--store", "/s", "--idunn-projection", "p", "--idunn-anchor", "/a"]).message(),
        "--idunn-projection must be an absolute path"
    );
    assert_eq!(
        err(&["--store", "/s", "--idunn-projection", "/p", "--idunn-anchor", "/s"]),
        OptionsError::NotDistinct
    );
    assert_eq!(
        err(&["--store", "/s", "--idunn-projection", "/s/", "--idunn-anchor", "/a"]),
        OptionsError::NotDistinct
    );
}

use odin::odin_core::presence::{
    select_presence, IncomingPresenceFacts, PresenceRefusal, PresenceSelection,
    StoredPresenceFacts,
};

fn stored(bytes: &[u8], sequence: u64) -> Option<StoredPresenceFacts> {
    Some(StoredPresenceFacts { canonical_bytes: bytes.to_vec(), publisher_sequence: sequence })
}

fn arriving(bytes: &[u8], sequence: Option<u64>) -> Option<IncomingPresenceFacts> {
    Some(IncomingPresenceFacts { canonical_bytes: bytes.to_vec(), authenticated_sequence: sequence })
}

#[test]
fn presence_admission_is_monotonic_and_exact_retry_keeps_the_stored_presence() {
    assert_eq!(
        select_presence(true, &None, &arriving(b"two", Some(2)), false, false),
        Ok(PresenceSelection::Admitted)
    );
    assert_eq!(
        select_presence(true, &stored(b"two", 2), &arriving(b"two", Some(2)), true, true),
        Ok(PresenceSelection::StoredCurrent)
    );
    assert_eq!(
        select_presence(true, &stored(b"two", 2), &arriving(b"one", Some(1)), true, true),
        Err(PresenceRefusal::SequenceReordered)
    );
    assert_eq!(
        select_presence(true, &stored(b"two", 2), &arriving(b"two'", Some(2)), true, true),
        Err(PresenceRefusal::SequenceReused)
    );
    assert_eq!(
        select_presence(true, &stored(b"two", 2), &arriving(b"three", Some(3)), true, true),
        Ok(PresenceSelection::Admitted)
    );
    assert_eq!(
        select_presence(true, &stored(b"two", 2), &arriving(b"forged", None), true, true),
        Err(PresenceRefusal::NotAuthenticated)
    );
}

#[test]
fn stored_presence_without_arrival_is_current_stale_or_refused() {
    assert_eq!(select_presence(true, &None, &None, false, false), Ok(PresenceSelection::NoPresence));
    assert_eq!(
        select_presence(true, &stored(b"p", 1), &None, true, false),
        Ok(PresenceSelection::StoredCurrent)
    );
    assert_eq!(
        select_presence(true, &stored(b"p", 1), &None, false, false),
        Ok(PresenceSelection::StoredStale)
    );
    assert_eq!(
        select_presence(true, &stored(b"p", 1), &None, false, true),
        Err(PresenceRefusal::StoredPresenceRejected)
    );
    assert_eq!(
        select_presence(false, &stored(b"p", 1), &None, true, true),
        Ok(PresenceSelection::StoredStale)
    );
    assert_eq!(
        select_presence(false, &None, &arriving(b"p", Some(1)), true, true),
        Err(PresenceRefusal::NoCurrentAuthority)
    );
}

use odin::odin_core::daemon::{
    require_expected_contract, ContractFault, ExpectedContract, ExpectedRoute, HEALTH_CONTRACT,
    RENDEZVOUS_CAPABILITY, RENDEZVOUS_COMPATIBILITY, RENDEZVOUS_SCHEMA, STATE_CONTRACT_SHA256,
    STATE_SCHEMA_GENERATION, TARGET,
};

fn rendezvous(minimum_capacity: u64) -> CapabilityRequirement {
    CapabilityRequirement {
        capability: RENDEZVOUS_CAPABILITY.to_string(),
        schema: RENDEZVOUS_SCHEMA.to_string(),
        compatibility: RENDEZVOUS_COMPATIBILITY.to_string(),
        minimum_capacity,
    }
}

fn odin_contract() -> ExpectedContract {
    ExpectedContract {
        target: TARGET.to_string(),
        health_contract: HEALTH_CONTRACT.to_string(),
        state_schema_generation: Some(STATE_SCHEMA_GENERATION.to_string()),
        state_contract_sha256: Some(STATE_CONTRACT_SHA256.to_string()),
        write_lease_required: true,
        route: Some(ExpectedRoute {
            transport: "rudp".to_string(),
            candidate_endpoint: "rudp://10.0.0.5:17871".to_string(),
        }),
        capabilities: vec![rendezvous(1)],
        dependency_count: 0,
    }
}

#[test]
fn expected_contract_must_match_the_compiled_one() {
    assert_eq!(require_expected_contract(&odin_contract(), "10.0.0.5:17871"), Ok(()));
    let fault = require_expected_contract(&odin_contract(), "10.0.0.6:17871").unwrap_err();
    assert_eq!(fault, ContractFault::BindDiffers);
    assert_eq!(fault.message(), "Odin candidate bind differs from Expected");

    let mut stale = odin_contract();
    stale.state_contract_sha256 = None;
    assert_eq!(
        require_expected_contract(&stale, "10.0.0.5:17871"),
        Err(ContractFault::RuntimeContractDiffers)
    );
    let mut unrouted = odin_contract();
    unrouted.route = None;
    assert_eq!(require_expected_contract(&unrouted, "10.0.0.5:17871"), Err(ContractFault::NoRoute));
    let mut bare = odin_contract();
    bare.capabilities = Vec::new();
    assert_eq!(
        require_expected_contract(&bare, "10.0.0.5:17871"),
        Err(ContractFault::NoRendezvousCapability)
    );
    let mut idle = odin_contract();
    idle.capabilities = vec![rendezvous(0)];
    assert_eq!(
        require_expected_contract(&idle, "10.0.0.5:17871"),
        Err(ContractFault::CapabilitySetDiffers)
    );
    let mut extra = odin_contract();
    extra.capabilities.push(rendezvous(2));
    assert_eq!(
        require_expected_contract(&extra, "10.0.0.5:17871"),
        Err(ContractFault::CapabilitySetDiffers)
    );
    let mut dependent = odin_contract();
    dependent.dependency_count = 1;
    assert_eq!(
        require_expected_contract(&dependent, "10.0.0.5:17871").unwrap_err().message(),
        "Odin bootstrap cannot depend on a managed daemon"
    );
}

use odin::odin_core::daemon::{
    generic_document_type, presence_state_fits_lease, snapshot_answer, validate_raw_document_shape,
    DocumentShapeFault, PresenceState, RawDocument, SnapshotAnswer, SnapshotRefusal,
};

fn raw(schema_id: &str, record_key: &str, stored_at: &str) -> RawDocument {
    RawDocument {
        schema_id: schema_id.to_string(),
        record_key: record_key.to_string(),
        stored_at: stored_at.to_string(),
        messagepack: true,
        payload: vec![0x90],
    }
}

#[test]
fn raw_documents_need_a_clean_shape() {
    assert_eq!(
        validate_raw_document_shape(&raw("voidbot.swarm.v1", "swarm", "2026-07-04T00:00:00.000Z")),
        Ok(())
    );
    assert_eq!(
        validate_raw_document_shape(&raw("voidbot.swarm.v1", "swarm", "2026-07-04 noon")),
        Err(DocumentShapeFault::StoredAt)
    );
    assert_eq!(
        validate_raw_document_shape(&raw("voidbot.swarm.v1", " swarm", "2026-07-04T00:00:00Z")),
        Err(DocumentShapeFault::KeyEncodingOrPayload)
    );
    let mut encoded = raw("voidbot.swarm.v1", "swarm", "2026-07-04T00:00:00Z");
    encoded.messagepack = false;
    assert_eq!(validate_raw_document_shape(&encoded), Err(DocumentShapeFault::KeyEncodingOrPayload));
    encoded.messagepack = true;
    encoded.payload.clear();
    assert_eq!(validate_raw_document_shape(&encoded), Err(DocumentShapeFault::KeyEncodingOrPayload));
    assert_eq!(
        validate_raw_document_shape(&raw("voidbot.swarm", "swarm", "2026-07-04T00:00:00Z")),
        Err(DocumentShapeFault::Schema(SchemaIdFault::NoVersionSuffix))
    );
}

#[test]
fn generic_traffic_cannot_write_authority_documents() {
    assert_eq!(generic_document_type("voidbot.swarm.v3").unwrap(), "voidbot.swarm");
    assert_eq!(
        generic_document_type("idunn.process_write_lease.v1"),
        Err(DocumentShapeFault::AuthorityOwned)
    );
    assert_eq!(
        generic_document_type("gamecult.runtime_presence_health.v2"),
        Err(DocumentShapeFault::AuthorityOwned)
    );
    assert_eq!(
        generic_document_type(""),
        Err(DocumentShapeFault::Schema(SchemaIdFault::EmptyOrPadded))
    );
}

#[test]
fn snapshot_queries_are_answered_by_activation() {
    assert_eq!(
        snapshot_answer(false, true, "m-1"),
        Ok(SnapshotAnswer::SelfPresence { state: PresenceState::Warming, detail: "idunn-warming:m-1".to_string() })
    );
    assert_eq!(
        snapshot_answer(true, true, "m-2"),
        Ok(SnapshotAnswer::SelfPresence { state: PresenceState::Active, detail: "route-observation:m-2".to_string() })
    );
    assert_eq!(snapshot_answer(true, false, "m-3"), Ok(SnapshotAnswer::Catalog));
    assert_eq!(snapshot_answer(false, false, "m-4"), Err(SnapshotRefusal::CatalogUnavailable));
    assert!(presence_state_fits_lease("warming", false));
    assert!(presence_state_fits_lease("active", true));
    assert!(!presence_state_fits_lease("active", false));
    assert!(!presence_state_fits_lease("warming", true));
    assert!(!presence_state_fits_lease("stale", true));
}

use odin::odin_core::daemon::{snapshot_selection, DuplicateIdentity};

fn identity(schema: &str, key: &str) -> (String, String) {
    (schema.to_string(), key.to_string())
}

#[test]
fn snapshots_come_in_identity_order_without_duplicates() {
    let ids = vec![
        identity("voidbot.swarm.v1", "swarm"),
        identity("mimir.live.stats.v1", "mimir"),
        identity("voidbot.swarm.v1", "alpha"),
        identity("gamecult.runtime_presence_health.v1", "odin"),
    ];
    assert_eq!(snapshot_selection(&None, &None, &ids), Ok(vec![3, 1, 2, 0]));
    let schemas = Some(vec!["voidbot.swarm.v1".to_string()]);
    assert_eq!(snapshot_selection(&schemas, &None, &ids), Ok(vec![2, 0]));
    let keys = Some(vec!["odin".to_string(), "mimir".to_string()]);
    assert_eq!(snapshot_selection(&None, &keys, &ids), Ok(vec![3, 1]));

    let mut twice = ids.clone();
    twice.push(identity("mimir.live.stats.v1", "mimir"));
    assert_eq!(snapshot_selection(&None, &None, &twice), Err(DuplicateIdentity));
    assert_eq!(snapshot_selection(&schemas, &None, &twice), Ok(vec![2, 0]));
}

use odin::odin_core::presence::{presence_matches_projection, PresenceClaim, ProjectionIdentity};

#[test]
fn only_presences_of_the_current_projection_are_shown() {
    let claim = PresenceClaim {
        signer_identity_id: "signer".to_string(),
        expected_projection_sha256: "sha256-e".to_string(),
        activation_witness_sha256: "sha256-a".to_string(),
        runtime_instance_id: "instance-1".to_string(),
    };
    let current = ProjectionIdentity {
        expected_signer_identity_id: "signer".to_string(),
        expected_sha256: "sha256-e".to_string(),
        activation_sha256: Some("sha256-a".to_string()),
        runtime_instance_id: Some("instance-1".to_string()),
    };
    assert!(presence_matches_projection(&claim, &current));
    let restarted = ProjectionIdentity { runtime_instance_id: Some("instance-2".to_string()), ..current };
    assert!(!presence_matches_projection(&claim, &restarted));
    let unactivated = ProjectionIdentity { activation_sha256: None, runtime_instance_id: Some("instance-1".to_string()), ..restarted };
    assert!(!presence_matches_projection(&claim, &unactivated));
}

use odin::odin_core::authority::{provider_evidence_admissible, ProviderFacts};

#[test]
fn only_exact_managed_providers_give_dependency_evidence() {
    let facts = || ProviderFacts {
        projection_sha256: Some("sha256-p".to_string()),
        stable_endpoint: Some("rudp://10.0.0.3:1".to_string()),
        authority_clean: true,
        correlation_authenticated: true,
    };
    let mut exact = requirement(Some("mimir"), Some("managed-incarnation"));
    exact.provider_expected_projection_sha256 = Some("sha256-p".to_string());
    exact.provider_endpoint = Some("rudp://10.0.0.3:1".to_string());
    assert!(provider_evidence_admissible(&exact, &facts()));

    let mut moved = facts();
    moved.stable_endpoint = Some("rudp://10.0.0.4:1".to_string());
    assert!(!provider_evidence_admissible(&exact, &moved));
    let mut stale = facts();
    stale.projection_sha256 = Some("sha256-q".to_string());
    assert!(!provider_evidence_admissible(&exact, &stale));
    let mut unauthenticated = facts();
    unauthenticated.correlation_authenticated = false;
    assert!(!provider_evidence_admissible(&exact, &unauthenticated));
    assert!(!provider_evidence_admissible(&requirement(Some("mimir"), Some("external")), &facts()));
    assert!(!provider_evidence_admissible(&requirement(None, Some("managed-incarnation")), &facts()));

    let mut empty = facts();
    empty.projection_sha256 = Some(String::new());
    assert!(provider_evidence_admissible(&requirement(Some("mimir"), Some("managed-incarnation")), &empty));
}

use odin::odin_core::authority::unix_millis_timestamp;

#[test]
fn clock_readings_become_timestamps_within_u64() {
    assert_eq!(unix_millis_timestamp(Some(1_782_000_000_000)).unwrap(), 1_782_000_000_000);
    assert_eq!(
        unix_millis_timestamp(Some(u64::MAX as u128 + 1)).unwrap_err().message,
        "system clock does not fit the topology timestamp"
    );
    assert_eq!(unix_millis_timestamp(None).unwrap_err().message, "system clock predates the Unix epoch");
}

#[test]
fn system_clock_reads_after_the_epoch_in_millis() {
    let first = SystemClock.now_unix_millis().unwrap();
    assert!(first > 1_577_836_800_000);
}

fn evidence(kind: &str, ready: bool) -> DependencyEvidence {
    DependencyEvidence {
        kind: kind.to_string(),
        capability: "data".to_string(),
        schema: "data.v1".to_string(),
        compatibility: "v1".to_string(),
        provider_id: Some("provider".to_string()),
        provider_authority: Some("managed-incarnation".to_string()),
        provider_expected_projection_sha256: None,
        provider_endpoint: None,
        observed_capacity: Some(4),
        provider_evidence_sha256: None,
        ready,
    }
}

fn correlation_inputs(state: &str) -> CorrelationInputs {
    CorrelationInputs {
        target: "voidbot".to_string(),
        expected_projection_sha256: "expected".to_string(),
        current_activation_sha256: Some("activation".to_string()),
        runtime_id: "voidbot-runtime".to_string(),
        runtime_instance_id: Some("instance-1".to_string()),
        signer_identity_id: "odin".to_string(),
        now: 1_000,
        projection_disagreements: Vec::new(),
        presence: PresenceFinding::Current {
            disagreements: Vec::new(),
            state: state.to_string(),
            write_lease_sha256: Some("lease".to_string()),
        },
        presence_facts: Some(PresenceFacts {
            signed_presence_sha256: "presence".to_string(),
            publisher_sequence: 7,
            capabilities: Vec::new(),
        }),
        lease_disagreement: None,
        capabilities: Vec::new(),
        write_lease_required: true,
        current_lease_sha256: Some("lease".to_string()),
        dependencies: vec![evidence("required", true), evidence("optional", false)],
        prior: None,
    }
}

#[test]
fn correlation_is_ready_keeps_unchanged_facts_and_follows_the_sequence() {
    let inputs = correlation_inputs("active");
    let CorrelationDecision::Publish(first) = decide_correlation(&inputs) else {
        panic!("expected a correlation to publish");
    };
    assert!(first.ready);
    assert!(first.present);
    assert_eq!(first.publisher_sequence, 1);
    assert_eq!(first.observed_write_lease_sha256.as_deref(), Some("lease"));
    assert_eq!(first.observed_presence_publisher_sequence, Some(7));
    assert_eq!(first.signature_algorithm, "ed25519");
    assert!(first.disagreements.is_empty());

    let mut again = correlation_inputs("active");
    again.now = 5_000;
    again.prior = Some(first.clone());
    assert!(matches!(decide_correlation(&again), CorrelationDecision::KeepPrior));

    let mut changed = correlation_inputs("warming");
    changed.prior = Some(first.clone());
    let CorrelationDecision::Publish(second) = decide_correlation(&changed) else {
        panic!("expected a new correlation");
    };
    assert_eq!(second.publisher_sequence, 2);
    assert!(!second.ready);
    assert!(!same_correlation_facts(&first, &second));

    let mut exhausted = correlation_inputs("active");
    let mut prior = first.clone();
    prior.publisher_sequence = u64::MAX;
    exhausted.prior = Some(prior);
    assert!(matches!(decide_correlation(&exhausted), CorrelationDecision::SequenceExhausted));
}

#[test]
fn correlation_without_presence_is_not_ready_and_sorted() {
    let mut inputs = correlation_inputs("active");
    inputs.presence = PresenceFinding::Absent;
    inputs.presence_facts = None;
    inputs.capabilities = vec![rendezvous(2)];
    inputs.dependencies = vec![evidence("required", false)];
    let CorrelationDecision::Publish(record) = decide_correlation(&inputs) else {
        panic!("expected a correlation to publish");
    };
    assert!(!record.present);
    assert!(!record.ready);
    let codes: Vec<&str> = record.disagreements.iter().map(|d| d.code.as_str()).collect();
    assert_eq!(codes, vec!["expected-capability-000-missing", "signed-presence-missing"]);
    assert!(record.observed_capabilities.is_empty());
}
