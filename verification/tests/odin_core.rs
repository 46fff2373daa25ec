use odin::documents::{
    OdinInterfaceRecord, OdinObservationStreamRecord, OdinRecords, OdinServiceRecord,
    OdinSnapshotRecord, OdinTranslationRouteRecord, OdinVerseRecord,
};
use odin::odin_core::discovery::{
    collect_provider_endpoint_matches, dedupe_endpoint_matches, discover_provider_endpoints,
    endpoint_looks_like_socket, normalized_host_fragment, AdvertisedDevice, AdvertisedEndpoint,
    OdinEndpointMatch, OdinEndpointQuery, ProviderAdvertisement,
};
use odin::odin_core::gjallar::{compose_gjallar_overview, GjallarCompositionInput};
use odin::odin_core::pipeline::{normalize_odin_records, OdinIngestPipeline};
use odin::odin_core::ports::{
    FixedClock, GjallarAffordanceIngest, GjallarAffordanceObservation, InterfaceIngest,
    InterfaceObservation, ObservationStreamIngest, ObservationStreamObservation, OdinInputBatch,
    PortError, ServiceIngest, ServiceObservation, TranslationRouteIngest,
    TranslationRouteObservation, VerseIngest, VerseObservation,
};
use odin::odin_core::repository::{
    persist_pipeline_records, InMemoryOdinRepository, OdinRepository,
};

#[test]
fn compose_overview_orders_dashboard_tiles_for_nightwing() {
    let composition = compose_gjallar_overview(GjallarCompositionInput {
        overview_id: "gjallar.overview:nightwing".to_string(),
        composed_at: "2026-06-05T00:00:00Z".to_string(),
        target_columns: 2,
        snapshot: OdinSnapshotRecord {
            snapshot_id: "latest".to_string(),
            observed_at: "2026-06-05T00:00:00Z".to_string(),
            verse_count: 1,
            service_count: 1,
            interface_count: 1,
            observation_stream_count: 1,
            source: "unit-test".to_string(),
        },
        verses: vec![OdinVerseRecord {
            verse_id: "nightwing.local".to_string(),
            name: "Nightwing".to_string(),
            role: "terminal-lowerer".to_string(),
            status: "active".to_string(),
            capabilities: vec!["tui".to_string()],
            observed_at: "2026-06-05T00:00:00Z".to_string(),
        }],
        services: vec![OdinServiceRecord {
            service_id: "odin".to_string(),
            verse_id: "starfire.local".to_string(),
            name: "Odin".to_string(),
            state: "active".to_string(),
            detail: "all-seer".to_string(),
            authority: "odin".to_string(),
            observed_at: "2026-06-05T00:00:00Z".to_string(),
        }],
        interfaces: vec![OdinInterfaceRecord {
            provider_id: "odin.allseer".to_string(),
            title: "Odin All-Seer".to_string(),
            state: "active".to_string(),
            source: "cultmesh".to_string(),
            version: Some("v1".to_string()),
            updated_at: None,
            observed_at: "2026-06-05T00:00:00Z".to_string(),
        }],
        observation_streams: vec![OdinObservationStreamRecord {
            stream_key: "periwinkle:motion:sensor".to_string(),
            device_id: "periwinkle".to_string(),
            stream_id: "motion".to_string(),
            kind: "sensor".to_string(),
            state: "active".to_string(),
            detail: "fresh".to_string(),
            owner: "mimir".to_string(),
            observed_at: "2026-06-05T00:00:00Z".to_string(),
        }],
        translation_routes: vec![OdinTranslationRouteRecord {
            route_id: "source=>target".to_string(),
            source_schema: "source".to_string(),
            target_schema: "target".to_string(),
            translation_kind: "projection".to_string(),
            owner: "odin".to_string(),
            version: "v1".to_string(),
            notes: "test".to_string(),
        }],
    });

    assert_eq!(composition.overview.tile_count, 6);
    assert_eq!(composition.overview.target_rows, 3);
    assert_eq!(composition.tiles[0].tile_kind, "summary");
    assert_eq!(
        composition.tiles[1].source_record,
        "odin.interface:odin.allseer"
    );
}

#[derive(Clone, Debug, Default)]
struct MockIngest;

impl VerseIngest for MockIngest {
    fn observe_verses(&self) -> Result<Vec<VerseObservation>, PortError> {
        Ok(vec![VerseObservation {
            verse_id: "starfire.local".to_string(),
            name: "Starfire".to_string(),
            role: "coordinator".to_string(),
            status: "active".to_string(),
            capabilities: vec!["cultmesh".to_string()],
        }])
    }
}

impl ServiceIngest for MockIngest {
    fn observe_services(&self) -> Result<Vec<ServiceObservation>, PortError> {
        Ok(vec![ServiceObservation {
            service_id: "odin".to_string(),
            verse_id: "starfire.local".to_string(),
            name: "Odin".to_string(),
            state: "active".to_string(),
            detail: "typed state".to_string(),
            authority: "odin".to_string(),
        }])
    }
}

impl InterfaceIngest for MockIngest {
    fn observe_interfaces(&self) -> Result<Vec<InterfaceObservation>, PortError> {
        Ok(vec![InterfaceObservation {
            provider_id: "odin.allseer".to_string(),
            title: "Odin".to_string(),
            state: "active".to_string(),
            source: "cultmesh".to_string(),
            version: Some("1".to_string()),
            updated_at: None,
        }])
    }
}

impl ObservationStreamIngest for MockIngest {
    fn observe_streams(&self) -> Result<Vec<ObservationStreamObservation>, PortError> {
        Ok(vec![ObservationStreamObservation {
            device_id: "periwinkle".to_string(),
            stream_id: "motion".to_string(),
            kind: "sensor".to_string(),
            state: "active".to_string(),
            detail: "fresh".to_string(),
            owner: "mimir".to_string(),
        }])
    }
}

impl TranslationRouteIngest for MockIngest {
    fn observe_translation_routes(&self) -> Result<Vec<TranslationRouteObservation>, PortError> {
        Ok(vec![TranslationRouteObservation {
            source_schema: "mimir.eve_sensor_observation.v1".to_string(),
            target_schema: "odin.observation_stream.v1".to_string(),
            translation_kind: "projection".to_string(),
            owner: "odin".to_string(),
            version: "v1".to_string(),
            notes: "dashboard projection".to_string(),
        }])
    }
}

impl GjallarAffordanceIngest for MockIngest {
    fn observe_gjallar_affordances(&self) -> Result<Vec<GjallarAffordanceObservation>, PortError> {
        Ok(vec![GjallarAffordanceObservation {
            source_record: "odin.service:odin".to_string(),
            verse_id: Some("starfire.local".to_string()),
            surface_kind: "service".to_string(),
            action: "inspect".to_string(),
            authority: "odin".to_string(),
            status: "available".to_string(),
            provenance: "unit-test".to_string(),
        }])
    }
}

struct FailingVerses;

impl VerseIngest for FailingVerses {
    fn observe_verses(&self) -> Result<Vec<VerseObservation>, PortError> {
        Err(PortError { message: "verse port is down".to_string() })
    }
}

#[test]
fn pipeline_collects_from_injected_ports() -> Result<(), PortError> {
    let pipeline = OdinIngestPipeline::new(
        MockIngest,
        MockIngest,
        MockIngest,
        MockIngest,
        MockIngest,
        MockIngest,
        FixedClock::new("2026-06-03T00:00:00Z"),
    );

    let records = normalize_odin_records(pipeline.collect()?);

    assert_eq!(records.snapshot.unwrap().service_count, 1);
    assert_eq!(records.verses[0].verse_id, "starfire.local");
    assert_eq!(records.services[0].authority, "odin");
    assert_eq!(
        records.observation_streams[0].stream_key,
        "periwinkle:motion:sensor"
    );
    assert_eq!(
        records.translation_routes[0].route_id,
        "mimir.eve_sensor_observation.v1=>odin.observation_stream.v1"
    );
    assert_eq!(
        records.gjallar_affordances[0].affordance_id,
        "gjallar:odin.service:odin:0"
    );
    Ok(())
}

#[test]
fn pipeline_passes_on_the_first_port_error() {
    let pipeline = OdinIngestPipeline::new(
        FailingVerses,
        MockIngest,
        MockIngest,
        MockIngest,
        MockIngest,
        MockIngest,
        FixedClock::new("2026-06-03T00:00:00Z"),
    );
    let error = pipeline.collect().unwrap_err();
    assert_eq!(error.message, "verse port is down");
}

#[test]
fn pipeline_stamps_batches_with_the_clock_and_source() -> Result<(), PortError> {
    let pipeline = OdinIngestPipeline::new(
        MockIngest,
        MockIngest,
        MockIngest,
        MockIngest,
        MockIngest,
        MockIngest,
        FixedClock::new("2026-06-03T00:00:00Z"),
    );
    let batch = pipeline.collect()?;
    assert_eq!(batch.observed_at, "2026-06-03T00:00:00Z");
    assert_eq!(batch.source, "odin.rust.ingest");
    let records = normalize_odin_records(batch);
    let snapshot = records.snapshot.unwrap();
    assert_eq!(snapshot.snapshot_id, "latest");
    assert_eq!(snapshot.source, "odin.rust.ingest");
    assert_eq!(snapshot.verse_count, 1);
    assert_eq!(records.verses[0].observed_at, "2026-06-03T00:00:00Z");
    Ok(())
}

fn sample_records() -> OdinRecords {
    normalize_odin_records(OdinInputBatch {
        observed_at: "2026-06-03T00:00:00Z".to_string(),
        source: "unit-test".to_string(),
        verses: vec![VerseObservation {
            verse_id: "starfire.local".to_string(),
            name: "Starfire".to_string(),
            role: "coordinator".to_string(),
            status: "active".to_string(),
            capabilities: vec!["cultmesh".to_string()],
        }],
        services: vec![ServiceObservation {
            service_id: "odin".to_string(),
            verse_id: "starfire.local".to_string(),
            name: "Odin".to_string(),
            state: "active".to_string(),
            detail: "persisted".to_string(),
            authority: "odin".to_string(),
        }],
        interfaces: vec![InterfaceObservation {
            provider_id: "odin.allseer".to_string(),
            title: "Odin".to_string(),
            state: "active".to_string(),
            source: "cultmesh".to_string(),
            version: Some("1".to_string()),
            updated_at: None,
        }],
        observation_streams: vec![ObservationStreamObservation {
            device_id: "periwinkle".to_string(),
            stream_id: "camera".to_string(),
            kind: "media".to_string(),
            state: "active".to_string(),
            detail: "fresh".to_string(),
            owner: "mimir".to_string(),
        }],
        translation_routes: vec![TranslationRouteObservation {
            source_schema: "source.v1".to_string(),
            target_schema: "target.v1".to_string(),
            translation_kind: "projection".to_string(),
            owner: "odin".to_string(),
            version: "v1".to_string(),
            notes: "test".to_string(),
        }],
        gjallar_affordances: Vec::new(),
    })
}

#[test]
fn memory_repository_supports_fast_unit_tests() -> Result<(), PortError> {
    let records = sample_records();
    let mut repository = InMemoryOdinRepository::default();

    repository.persist_records(&records)?;

    assert_eq!(repository.records.services[0].service_id, "odin");
    Ok(())
}

#[test]
fn persisting_pipeline_records_hands_them_back_unchanged() -> Result<(), PortError> {
    let records = sample_records();
    let mut repository = InMemoryOdinRepository::default();
    assert!(repository.records.services.is_empty());

    let returned = persist_pipeline_records(&mut repository, records.clone())?;

    assert_eq!(returned, records);
    assert_eq!(repository.records, records);
    Ok(())
}

fn hid_endpoint(address: &str, stream_id: Option<&str>, devices: Vec<(&str, &str)>) -> AdvertisedEndpoint {
    AdvertisedEndpoint {
        address: Some(address.to_string()),
        schema: Some("muninn.hid_controller_state.v1".to_string()),
        transport: Some("cultnet.transport.rudp.v0".to_string()),
        stream_id: stream_id.map(str::to_string),
        devices: devices
            .into_iter()
            .map(|(id, kind)| AdvertisedDevice {
                device_id: Some(id.to_string()),
                device_kind: Some(kind.to_string()),
            })
            .collect(),
    }
}

#[test]
fn host_hint_matches_explicit_provider_identity_not_nested_mentions() {
    let starfire_provider = ProviderAdvertisement {
        identities: vec![
            "muninn.telemetry.starfire".to_string(),
            "starfire.local".to_string(),
        ],
        input_streams: vec![hid_endpoint(
            "198.51.100.66:17888",
            Some("raven:xbox-raven:hid-controller-state"),
            vec![("xbox-raven", "xinput-controller")],
        )],
        endpoints: Vec::new(),
        routes: Vec::new(),
    };

    let mut matches = Vec::new();
    collect_provider_endpoint_matches(
        &starfire_provider,
        &OdinEndpointQuery {
            schema: Some("muninn.hid_controller_state.v1"),
            transport_contains: Some("rudp"),
            host_hint: Some("raven"),
            device_filter: Some("xbox-raven"),
        },
        &mut matches,
    );

    assert!(matches.is_empty());
}

#[test]
fn host_hint_matches_normalized_provider_catalog_identity() {
    let mut route = hid_endpoint("198.51.100.66:17888", None, Vec::new());
    route.devices.clear();
    let starfire_provider = ProviderAdvertisement {
        identities: vec![
            "muninn.telemetry.starfire".to_string(),
            "asgard.starfire.muninn".to_string(),
        ],
        input_streams: Vec::new(),
        endpoints: Vec::new(),
        routes: vec![route],
    };

    let mut matches = Vec::new();
    collect_provider_endpoint_matches(
        &starfire_provider,
        &OdinEndpointQuery {
            schema: Some("muninn.hid_controller_state.v1"),
            transport_contains: Some("rudp"),
            host_hint: Some("starfire"),
            device_filter: Some("nav-windows-psnav-0"),
        },
        &mut matches,
    );

    assert_eq!(matches.len(), 1);
    assert_eq!(matches[0].address, "198.51.100.66:17888");
}

#[test]
fn socket_endpoints_need_a_host_and_a_nonzero_port() {
    assert!(endpoint_looks_like_socket("198.51.100.66:17888"));
    assert!(endpoint_looks_like_socket("[::1]:80"));
    assert!(endpoint_looks_like_socket("host:+80"));
    assert!(!endpoint_looks_like_socket("198.51.100.66"));
    assert!(!endpoint_looks_like_socket(" :80"));
    assert!(!endpoint_looks_like_socket("host:0"));
    assert!(!endpoint_looks_like_socket("host:65536"));
    assert!(!endpoint_looks_like_socket("host:"));
    assert!(!endpoint_looks_like_socket("discovering"));
}

#[test]
fn host_fragments_drop_every_local_suffix_and_case() {
    assert_eq!(normalized_host_fragment("  Starfire.local.local "), "starfire");
    assert_eq!(normalized_host_fragment("RAVEN"), "raven");
    assert_eq!(normalized_host_fragment("raven.LOCAL"), "raven.local");
    assert_eq!(normalized_host_fragment(" .local "), "");
}

fn endpoint_match(address: &str, schema: Option<&str>) -> OdinEndpointMatch {
    OdinEndpointMatch {
        address: address.to_string(),
        schema: schema.map(str::to_string),
        transport: None,
        stream_id: None,
    }
}

#[test]
fn dedupe_sorts_matches_and_keeps_each_once() {
    let deduped = dedupe_endpoint_matches(vec![
        endpoint_match("b:1", None),
        endpoint_match("a:1", Some("x")),
        endpoint_match("b:1", None),
        endpoint_match("a:1", None),
    ]);
    assert_eq!(
        deduped,
        vec![
            endpoint_match("a:1", None),
            endpoint_match("a:1", Some("x")),
            endpoint_match("b:1", None),
        ]
    );
}

#[test]
fn discovery_filters_by_schema_transport_and_device_then_dedupes() {
    let provider = ProviderAdvertisement {
        identities: vec!["muninn.telemetry.starfire".to_string()],
        input_streams: vec![
            hid_endpoint("198.51.100.66:17888", Some("starfire:nav:hid-controller-state"), vec![("nav", "ps3-navigation")]),
            hid_endpoint("198.51.100.66:17889", Some("starfire:pad:hid-controller-state"), vec![("pad", "xinput-controller")]),
        ],
        endpoints: vec![hid_endpoint("not-a-socket", None, Vec::new())],
        routes: vec![hid_endpoint("198.51.100.66:17888", Some("starfire:nav:hid-controller-state"), Vec::new())],
    };
    let found = discover_provider_endpoints(
        &vec![provider.clone(), provider],
        OdinEndpointQuery {
            schema: Some("muninn.hid_controller_state.v1"),
            transport_contains: Some("RUDP"),
            host_hint: Some("starfire.local"),
            device_filter: Some("nav"),
        },
    );
    assert_eq!(found.len(), 1);
    assert_eq!(found[0].address, "198.51.100.66:17888");
    assert_eq!(found[0].stream_id.as_deref(), Some("starfire:nav:hid-controller-state"));
}

#[test]
fn discovery_does_not_depend_on_provider_order() {
    let starfire = ProviderAdvertisement {
        identities: vec!["muninn.telemetry.starfire".to_string()],
        input_streams: vec![hid_endpoint("198.51.100.66:17888", Some("starfire:nav:hid-controller-state"), Vec::new())],
        endpoints: Vec::new(),
        routes: Vec::new(),
    };
    let raven = ProviderAdvertisement {
        identities: vec!["muninn.telemetry.raven".to_string()],
        input_streams: vec![hid_endpoint("10.0.0.7:17888", Some("raven:pad:hid-controller-state"), Vec::new())],
        endpoints: Vec::new(),
        routes: Vec::new(),
    };
    let query = || OdinEndpointQuery {
        schema: Some("muninn.hid_controller_state.v1"),
        transport_contains: None,
        host_hint: None,
        device_filter: None,
    };
    let forward = discover_provider_endpoints(&vec![starfire.clone(), raven.clone()], query());
    let backward = discover_provider_endpoints(&vec![raven.clone(), starfire.clone(), raven], query());
    assert_eq!(forward, backward);
    assert_eq!(forward.len(), 2);
    assert_eq!(forward[0].address, "10.0.0.7:17888");
}
