use odin::sleipnir::cursor::{HidButtonEdge, HidSemanticCursor};
use odin::sleipnir::devices::{
    available_hid_device_discovery_score, catalog_available_hid_devices,
    should_replace_available_hid_device,
    upsert_available_hid_device, AvailableHidDevice,
};
use odin::sleipnir::advertisement::{
    available_hid_devices_from_advertisement, discover_available_hid_endpoint,
    is_muninn_fast_hid_stream, matching_provider_advertised_hid_endpoint, HidAdvertisement,
    HidInputStream, HidStreamDevice,
};
use odin::sleipnir::coalesce::{coalesce_latest_by_device, HidRecordOrder};
use odin::sleipnir::health::{
    health_detail, health_message_id, health_state, stream_state, virtual_backend, StreamFacts,
};
use odin::sleipnir::mapping::{
    axis_binding_label, default_button_map, effective_device_filter, mapped_buttons,
    newest_sleipnir_mapping_record, record_matches_filter,
    ButtonBinding, HidRecordIdentity, MappingSource,
};
use odin::sleipnir::naming::{
    muninn_provider_keys, sleipnir_daemon_id, sleipnir_provider_id, stable_id, stream_host_hint,
};
use odin::sleipnir::options::{parse_options, usage, Options, OptionsError, SLEIPNIR_COMMAND_ROUTE};
use odin::sleipnir::provider::{
    sleipnir_provider_advertisement, sleipnir_provider_title, sleipnir_surface_state, title_case,
};
use odin::sleipnir::runtime_loop::{
    apply_edge, sleipnir_step, SleipnirAction, SleipnirEvent, SleipnirLoopState, StreamLink,
};
use odin::sleipnir::surface::{
    remap_preset_cards, sleipnir_surface_document, xbox_binding_map, AxisTarget, LearnRequest,
    SleipnirInputLatencySnapshot, SleipnirRuntimeState, SurfaceDocument, SurfaceElement,
    SurfaceScalar,
};

fn edge(epoch: u64, sequence: u64, button: &str, pressed: bool) -> HidButtonEdge {
    HidButtonEdge { epoch, device_id: "pad".into(), edge_sequence: sequence, button: button.into(), pressed }
}

#[test]
fn ordered_edges_preserve_quick_tap_and_dedupe_reorder() {
    let mut cursor = HidSemanticCursor::default();
    assert!(cursor.accept_state(7, 1));
    assert!(cursor.push_edge(edge(7, 2, "a", false)).is_empty());
    let ready = cursor.push_edge(edge(7, 1, "a", true));
    assert_eq!(ready.iter().map(|edge| (edge.pressed, edge.edge_sequence)).collect::<Vec<_>>(), vec![(true, 1), (false, 2)]);
    assert!(cursor.push_edge(edge(7, 1, "a", true)).is_empty());
}

#[test]
fn latest_state_wins_without_wall_clock_ordering() {
    let mut cursor = HidSemanticCursor::default();
    assert!(cursor.accept_state(9, 4));
    assert!(!cursor.accept_state(9, 3));
    assert!(cursor.accept_state(9, 5)); // source wall clock may move backwards; it is irrelevant here.
}

#[test]
fn epoch_reset_rejects_stale_edges() {
    let mut cursor = HidSemanticCursor::default();
    assert!(cursor.accept_state(10, 8));
    assert!(cursor.accept_state(11, 1));
    assert!(cursor.push_edge(edge(10, 9, "a", true)).is_empty());
    assert_eq!(cursor.push_edge(edge(11, 1, "b", true)).len(), 1);
    assert!(!cursor.accept_state(10, 99));
}

#[test]
fn epoch_zero_is_refused_once_a_real_epoch_started() {
    let mut cursor = HidSemanticCursor::default();
    assert!(cursor.accept_state(0, 1));
    assert!(cursor.accept_state(3, 1));
    assert!(!cursor.accept_state(0, 50));
    assert!(!cursor.accept_state(3, 1));
}

#[test]
fn first_copy_of_a_pending_edge_wins() {
    let mut cursor = HidSemanticCursor::default();
    assert!(cursor.accept_state(4, 1));
    assert!(cursor.push_edge(edge(4, 2, "first", true)).is_empty());
    assert!(cursor.push_edge(edge(4, 2, "second", true)).is_empty());
    let ready = cursor.push_edge(edge(4, 1, "a", false));
    assert_eq!(ready.len(), 2);
    assert_eq!(ready[1].button, "first");
}

fn device(stream_id: &str, endpoint: &str) -> AvailableHidDevice {
    AvailableHidDevice {
        device_id: "nav-windows-psnav-0".to_string(),
        device_kind: "ps3-navigation".to_string(),
        source_path: "windows-psmove://nav".to_string(),
        stream_id: stream_id.to_string(),
        host_id: "starfire".to_string(),
        endpoint: endpoint.to_string(),
    }
}

#[test]
fn available_hid_device_upsert_deduplicates_endpoint_variants() {
    let mut devices = Vec::new();
    upsert_available_hid_device(
        &mut devices,
        AvailableHidDevice {
            device_id: "nav-windows-psnav-0".to_string(),
            device_kind: "ps3-navigation".to_string(),
            source_path: "windows-psmove://nav".to_string(),
            stream_id: "starfire:nav-windows-psnav-0:hid-controller-state".to_string(),
            host_id: "starfire".to_string(),
            endpoint: "discovering".to_string(),
        },
    );
    upsert_available_hid_device(
        &mut devices,
        AvailableHidDevice {
            device_id: "nav-windows-psnav-0".to_string(),
            device_kind: "ps3-navigation".to_string(),
            source_path: "windows-psmove://nav".to_string(),
            stream_id: "starfire:nav-windows-psnav-0:hid-controller-state".to_string(),
            host_id: "starfire".to_string(),
            endpoint: "198.51.100.66:17888".to_string(),
        },
    );
    upsert_available_hid_device(
        &mut devices,
        AvailableHidDevice {
            device_id: "nav-windows-psnav-0".to_string(),
            device_kind: "ps3-navigation".to_string(),
            source_path: "windows-psmove://nav".to_string(),
            stream_id: "muninn:starfire:hid-controller-state".to_string(),
            host_id: "starfire".to_string(),
            endpoint: "198.51.100.66:17888".to_string(),
        },
    );

    assert_eq!(devices.len(), 1);
    assert_eq!(devices[0].endpoint, "198.51.100.66:17888");
    assert_eq!(
        devices[0].stream_id,
        "starfire:nav-windows-psnav-0:hid-controller-state"
    );
}

#[test]
fn discovery_scores_weigh_endpoint_stream_and_source() {
    let full = device("starfire:nav-windows-psnav-0:hid", "198.51.100.66:17888");
    assert_eq!(available_hid_device_discovery_score(&full), 7);
    let mut bare = device("muninn:hid", "discovering");
    bare.source_path = " unknown ".to_string();
    assert_eq!(available_hid_device_discovery_score(&bare), 1);
    bare.source_path = "unknown".to_string();
    assert_eq!(available_hid_device_discovery_score(&bare), 0);
    assert!(should_replace_available_hid_device(&bare, &full));
    assert!(!should_replace_available_hid_device(&full, &bare));
    assert!(should_replace_available_hid_device(&full, &full));
}

#[test]
fn catalog_stays_in_host_then_device_order() {
    let mut devices = Vec::new();
    let mut b = device("x", "discovering");
    b.host_id = "raven".to_string();
    b.device_id = "b".to_string();
    let mut a = device("x", "discovering");
    a.host_id = "raven".to_string();
    a.device_id = "a".to_string();
    let mut c = device("x", "discovering");
    c.host_id = "nightwing".to_string();
    c.device_id = "z".to_string();
    upsert_available_hid_device(&mut devices, b);
    upsert_available_hid_device(&mut devices, a);
    upsert_available_hid_device(&mut devices, c);
    let keys: Vec<(String, String)> = devices
        .iter()
        .map(|d| (d.host_id.clone(), d.device_id.clone()))
        .collect();
    assert_eq!(
        keys,
        vec![
            ("nightwing".to_string(), "z".to_string()),
            ("raven".to_string(), "a".to_string()),
            ("raven".to_string(), "b".to_string()),
        ]
    );
}

fn args(values: &[&str]) -> Vec<String> {
    values.iter().map(|v| v.to_string()).collect()
}

#[test]
fn options_take_defaults_and_flags() {
    let parsed = parse_options(&args(&[]), &Vec::new(), false).unwrap();
    assert_eq!(parsed.host_id, "starfire");
    assert_eq!(parsed.interval_ms, 8);
    assert_eq!(parsed.command_route, "cultmesh://odin/command/sleipnir/input_mapping");
    assert_eq!(
        parsed.odin_cultmesh_uri.as_deref(),
        Some("cultmesh://odin/rendezvous/provider-catalog")
    );
    assert!(!parsed.trace);

    let a = args(&["--host", "raven", "--interval-ms", "+16", "--mapping-path", "m.json", "--rudp-bind", "0.0.0.0:1", "--once", "--trace"]);
    let ok: Vec<bool> = a.iter().map(|v| v == "0.0.0.0:1").collect();
    let parsed = parse_options(&a, &ok, false).unwrap();
    assert_eq!(parsed.host_id, "raven");
    assert_eq!(parsed.interval_ms, 16);
    assert_eq!(parsed.mapping_path.as_deref(), Some("m.json"));
    assert_eq!(parsed.rudp_bind.as_deref(), Some("0.0.0.0:1"));
    assert!(parsed.once && parsed.trace && !parsed.dry_run);
}

#[test]
fn options_report_each_refusal() {
    let no_ok: Vec<bool> = Vec::new();
    assert_eq!(
        parse_options(&args(&["--host"]), &no_ok, false).unwrap_err(),
        OptionsError::MissingValue("--host".to_string())
    );
    assert_eq!(
        parse_options(&args(&["--mapping", "  "]), &no_ok, false).unwrap_err().message(),
        "--mapping requires a value"
    );
    assert_eq!(
        parse_options(&args(&["--interval-ms", "fast"]), &no_ok, false).unwrap_err(),
        OptionsError::InvalidInterval
    );
    assert_eq!(
        parse_options(&args(&["--rudp-bind", "nowhere"]), &no_ok, false).unwrap_err(),
        OptionsError::InvalidRudpBind
    );
    assert_eq!(
        parse_options(&args(&["--command-rudp-bind", "0.0.0.0:1"]), &no_ok, false).unwrap_err(),
        OptionsError::CommandRudpBindRemoved
    );
    assert_eq!(
        parse_options(&args(&["--command-rudp-advertise"]), &no_ok, false).unwrap_err(),
        OptionsError::CommandRudpAdvertiseRemoved
    );
    assert_eq!(
        parse_options(&args(&["--odin-cultmesh-rudp", "x"]), &no_ok, false).unwrap_err(),
        OptionsError::OdinCultmeshRudpRemoved
    );
    assert_eq!(
        parse_options(&args(&["--idunn-rudp-health", "nowhere"]), &no_ok, false).unwrap_err(),
        OptionsError::InvalidIdunnHealthEndpoint
    );
    assert_eq!(
        parse_options(&args(&["--idunn-daemon", "sleipnir"]), &no_ok, false).unwrap_err(),
        OptionsError::IdunnHealthIncomplete
    );
    assert_eq!(
        parse_options(&args(&["-h"]), &no_ok, false).unwrap_err(),
        OptionsError::HelpRequested
    );
    let unknown = parse_options(&args(&["--bogus"]), &no_ok, false).unwrap_err();
    assert_eq!(unknown, OptionsError::Unrecognized("--bogus".to_string()));
    assert_eq!(unknown.message(), format!("unrecognized argument --bogus\n{}", usage()));
}

#[test]
fn idunn_health_options_come_together() {
    let a = args(&["--idunn-rudp-health", "127.0.0.1:9", "--idunn-daemon", "d", "--idunn-health-contract", "c"]);
    let ok: Vec<bool> = a.iter().map(|v| v == "127.0.0.1:9").collect();
    let parsed = parse_options(&a, &ok, true).unwrap();
    let health = parsed.idunn_rudp_health.unwrap();
    assert_eq!(health.endpoint, "127.0.0.1:9");
    assert_eq!(health.daemon_id, "d");
    assert_eq!(health.health_contract, "c");
    assert!(parsed.trace);
}

#[test]
fn rejects_removed_command_rudp_bind() {
    let a = args(&["--command-rudp-bind", "127.0.0.1:17889"]);
    let ok: Vec<bool> = a.iter().map(|v| v == "127.0.0.1:17889").collect();
    let error = parse_options(&a, &ok, false).unwrap_err().message();

    assert!(error.contains("--command-rudp-bind has been removed"));
}

#[test]
fn accepts_odin_cultmesh_uri() {
    let a = args(&["--odin-cultmesh-uri", "cultmesh://odin/rendezvous/provider-catalog"]);
    let ok: Vec<bool> = a.iter().map(|_| false).collect();
    let options = parse_options(&a, &ok, false).unwrap();

    assert_eq!(
        options.odin_cultmesh_uri.as_deref(),
        Some("cultmesh://odin/rendezvous/provider-catalog")
    );
}

#[test]
fn rejects_removed_odin_cultmesh_rudp() {
    let a = args(&["--odin-cultmesh-rudp", "127.0.0.1:17871"]);
    let ok: Vec<bool> = a.iter().map(|v| v == "127.0.0.1:17871").collect();
    let error = parse_options(&a, &ok, false).unwrap_err().message();

    assert!(error.contains("--odin-cultmesh-rudp has been removed"));
}

/// A controller state as the daemon receives it: what coalescing orders by,
/// and the axes that travel with it.
struct TestHidRecord {
    device_id: String,
    source_timestamp_ns: i64,
    sequence: u64,
    axes: Vec<f32>,
}

fn record(axes: Vec<f32>, sequence: u64) -> TestHidRecord {
    TestHidRecord { device_id: "pad".to_string(), source_timestamp_ns: 0, sequence, axes }
}

fn coalesce(records: Vec<TestHidRecord>) -> Vec<TestHidRecord> {
    let order: Vec<HidRecordOrder> = records
        .iter()
        .map(|r| HidRecordOrder {
            device_id: r.device_id.clone(),
            source_timestamp_ns: r.source_timestamp_ns,
            sequence: r.sequence,
        })
        .collect();
    let kept = coalesce_latest_by_device(&order);
    let mut slots: Vec<Option<TestHidRecord>> = records.into_iter().map(Some).collect();
    kept.into_iter().map(|i| slots[i].take().unwrap()).collect()
}

#[test]
fn coalesces_latest_hid_records_per_device() {
    let mut old_nav = record(vec![1.0, 0.0, -1.0], 1);
    old_nav.device_id = "nav".to_string();
    old_nav.source_timestamp_ns = 1_000;
    let mut xbox = record(vec![0.25, 0.0, -1.0], 7);
    xbox.device_id = "xbox".to_string();
    xbox.source_timestamp_ns = 1_500;
    let mut latest_nav = record(vec![0.0, 0.0, -1.0], 2);
    latest_nav.device_id = "nav".to_string();
    latest_nav.source_timestamp_ns = 2_000;

    let records = coalesce(vec![old_nav, xbox, latest_nav]);

    assert_eq!(records.len(), 2);
    assert_eq!(records[0].device_id, "xbox");
    assert_eq!(records[0].sequence, 7);
    assert_eq!(records[1].device_id, "nav");
    assert_eq!(records[1].sequence, 2);
    assert_eq!(records[1].axes[0], 0.0);
}

#[test]
fn coalesces_by_source_timestamp_not_arrival_order() {
    let mut newer_nav = record(vec![0.0, 1.0, -1.0], 10);
    newer_nav.device_id = "nav".to_string();
    newer_nav.source_timestamp_ns = 2_000;
    let mut older_nav = record(vec![-1.0, 0.0, -1.0], 9);
    older_nav.device_id = "nav".to_string();
    older_nav.source_timestamp_ns = 1_000;

    let records = coalesce(vec![newer_nav, older_nav]);

    assert_eq!(records.len(), 1);
    assert_eq!(records[0].sequence, 10);
    assert_eq!(records[0].axes[1], 1.0);
}

fn order(device: &str, ts: i64, seq: u64) -> HidRecordOrder {
    HidRecordOrder { device_id: device.to_string(), source_timestamp_ns: ts, sequence: seq }
}

#[test]
fn coalescing_breaks_timestamp_ties_by_sequence_and_keeps_the_first_of_equals() {
    let records = vec![
        order("a", 5, 1),
        order("b", 5, 4),
        order("a", 5, 3),
        order("b", 5, 4),
        order("a", 4, 9),
    ];
    assert_eq!(coalesce_latest_by_device(&records), vec![1, 2]);
    assert!(coalesce_latest_by_device(&Vec::new()).is_empty());
}

#[test]
fn stream_ids_hint_at_their_host() {
    assert_eq!(
        stream_host_hint(Some("starfire:nav-windows-psnav-0:hid-controller-state")).as_deref(),
        Some("starfire")
    );
    assert_eq!(
        stream_host_hint(Some("muninn:Raven.local.local:hid-controller-state")).as_deref(),
        Some("raven")
    );
    assert_eq!(stream_host_hint(Some(" : :muninn")).as_deref(), Some("muninn"));
    assert_eq!(stream_host_hint(Some("::  :")), None);
    assert_eq!(stream_host_hint(Some(".local:x")), None);
    assert_eq!(stream_host_hint(None), None);
}

#[test]
fn stable_ids_keep_letters_and_digits() {
    assert_eq!(stable_id("Nav Windows/PSNav#0"), "nav-windows-psnav-0");
    assert_eq!(stable_id("--leftX--"), "leftx");
    assert_eq!(stable_id("é"), "device");
    assert_eq!(stable_id(""), "device");
}

fn bind(source: &str, target: &str) -> ButtonBinding {
    ButtonBinding { source: source.to_string(), target: target.to_string() }
}

#[test]
fn buttons_are_mapped_dropped_and_reported_once() {
    let mut map = default_button_map();
    map.push(bind("cross", "a"));
    map.push(bind("circle", "b"));
    map.push(bind("square", " "));
    map.push(bind("select", "NoNe"));
    let pressed = args(&["cross", "l2", "circle", "trigger", "a", "square", "select", "up", "b"]);
    assert_eq!(mapped_buttons(&pressed, &map), args(&["a", "b", "up"]));
    assert!(mapped_buttons(&Vec::new(), &map).is_empty());
    assert_eq!(mapped_buttons(&args(&["l2"]), &Vec::new()), args(&["l2"]));
}

#[test]
fn device_filters_match_ids_kinds_and_paths() {
    let record = HidRecordIdentity {
        device_id: "nav-0".to_string(),
        stream_id: "starfire:nav-0:hid-controller-state".to_string(),
        source_path: "windows-psmove://nav/0".to_string(),
        device_kind: "ps3-navigation".to_string(),
    };
    assert!(record_matches_filter(&record, None));
    assert!(record_matches_filter(&record, Some("nav-0")));
    assert!(record_matches_filter(&record, Some("starfire:nav-0:hid-controller-state")));
    assert!(record_matches_filter(&record, Some("psmove://nav")));
    assert!(record_matches_filter(&record, Some("ps3-navigation")));
    assert!(!record_matches_filter(&record, Some("xbox")));
}

fn text(value: &str) -> Option<String> {
    Some(value.to_string())
}

fn hid_stream(stream_id: &str, address: &str, devices: Vec<HidStreamDevice>) -> HidInputStream {
    HidInputStream {
        address: text(address),
        stream_id: text(stream_id),
        schema: text("muninn.hid_controller_state.v1"),
        transport: text("cultnet.transport.rudp.v0"),
        devices,
    }
}

fn stream_device(id: &str, kind: &str, path: &str) -> HidStreamDevice {
    HidStreamDevice { device_id: text(id), device_kind: text(kind), source_path: text(path) }
}

#[test]
fn available_hid_devices_ignore_move_evidence_streams() {
    let provider = HidAdvertisement {
        verse_id: text("starfire.local"),
        input_streams: vec![
            hid_stream(
                "muninn:nightwing:move-evidence",
                "198.51.100.75:17888",
                vec![stream_device("nav-ghost", "ps3-navigation", "/dev/input/js0")],
            ),
            hid_stream(
                "muninn:starfire:hid-controller-state",
                "198.51.100.66:17888",
                vec![stream_device("nav-windows-psnav-0", "ps3-navigation", "windows-psmove://nav")],
            ),
        ],
    };

    let devices = available_hid_devices_from_advertisement(&provider);

    assert_eq!(devices.len(), 1);
    assert_eq!(devices[0].device_id, "nav-windows-psnav-0");
    assert_eq!(devices[0].host_id, "starfire");
    assert_eq!(devices[0].endpoint, "198.51.100.66:17888");
}

#[test]
fn advertised_devices_take_defaults_and_need_an_id() {
    let provider = HidAdvertisement {
        verse_id: None,
        input_streams: vec![hid_stream(
            "raven:pad:hid-controller-state",
            "10.0.0.2:9",
            vec![
                HidStreamDevice { device_id: text("pad-0"), device_kind: None, source_path: None },
                HidStreamDevice { device_id: text(""), device_kind: None, source_path: None },
                HidStreamDevice { device_id: None, device_kind: text("hid"), source_path: None },
            ],
        )],
    };
    let devices = available_hid_devices_from_advertisement(&provider);
    assert_eq!(devices.len(), 1);
    assert_eq!(devices[0].device_kind, "hid");
    assert_eq!(devices[0].source_path, "");
    assert_eq!(devices[0].host_id, "");
    assert_eq!(devices[0].stream_id, "raven:pad:hid-controller-state");

    let mut stream = hid_stream("raven:pad:hid-controller-state", "10.0.0.2:9", Vec::new());
    assert!(is_muninn_fast_hid_stream(&stream, "raven:pad:hid-controller-state", "10.0.0.2:9"));
    assert!(!is_muninn_fast_hid_stream(&stream, "raven:pad:hid-controller-state", "10.0.0.2:0"));
    assert!(!is_muninn_fast_hid_stream(&stream, "muninn:hid", "10.0.0.2:9"));
    stream.transport = text("cultnet.transport.tcp.v0");
    assert!(!is_muninn_fast_hid_stream(&stream, "raven:pad:hid-controller-state", "10.0.0.2:9"));
    stream.transport = None;
    assert!(!is_muninn_fast_hid_stream(&stream, "raven:pad:hid-controller-state", "10.0.0.2:9"));
}

#[test]
fn the_newer_discovery_mapping_wins_and_ties_stay_local() {
    let local = Some("2026-07-04T00:00:00.000Z");
    let newer = Some("2026-07-04T00:00:01.000Z");
    assert_eq!(newest_sleipnir_mapping_record(local, newer), Some(MappingSource::Discovery));
    assert_eq!(newest_sleipnir_mapping_record(newer, local), Some(MappingSource::Local));
    assert_eq!(newest_sleipnir_mapping_record(local, local), Some(MappingSource::Local));
    assert_eq!(newest_sleipnir_mapping_record(None, local), Some(MappingSource::Discovery));
    assert_eq!(newest_sleipnir_mapping_record(local, None), Some(MappingSource::Local));
    assert_eq!(newest_sleipnir_mapping_record(None, None), None);
}

#[test]
fn the_final_catalog_keeps_only_socket_endpoints() {
    let mut pending = device("muninn:hid", "discovering");
    pending.device_id = "pad".to_string();
    let reachable = device("starfire:nav-windows-psnav-0:hid", "198.51.100.66:17888");
    let mut downgraded = reachable.clone();
    downgraded.endpoint = "discovering".to_string();
    downgraded.stream_id = "muninn:hid".to_string();
    let mut other = device("x", "10.0.0.9:1");
    other.host_id = "nightwing".to_string();

    let catalog = catalog_available_hid_devices(vec![pending, reachable.clone(), downgraded, other]);
    let keys: Vec<(String, String, String)> = catalog
        .iter()
        .map(|d| (d.host_id.clone(), d.device_id.clone(), d.endpoint.clone()))
        .collect();
    assert_eq!(
        keys,
        vec![
            ("nightwing".to_string(), "nav-windows-psnav-0".to_string(), "10.0.0.9:1".to_string()),
            ("starfire".to_string(), "nav-windows-psnav-0".to_string(), "198.51.100.66:17888".to_string()),
        ]
    );
    assert!(catalog_available_hid_devices(Vec::new()).is_empty());
}

fn starfire_provider() -> HidAdvertisement {
    HidAdvertisement {
        verse_id: text("starfire.local"),
        input_streams: vec![hid_stream(
            "muninn:starfire:hid-controller-state",
            "198.51.100.66:17888",
            vec![stream_device("nav-windows-psnav-0", "ps3-navigation", "windows-psmove://nav")],
        )],
    }
}

#[test]
fn advertised_devices_resolve_their_stream_endpoint() {
    let provider = starfire_provider();
    assert_eq!(
        matching_provider_advertised_hid_endpoint(
            &provider,
            Some("nav-windows-psnav-0"),
            Some("muninn:starfire:hid-controller-state"),
        )
        .as_deref(),
        Some("198.51.100.66:17888")
    );
    assert_eq!(
        matching_provider_advertised_hid_endpoint(&provider, Some(" psmove://nav "), Some("muninn:STARFIRE:other"))
            .as_deref(),
        Some("198.51.100.66:17888")
    );
    assert_eq!(
        matching_provider_advertised_hid_endpoint(&provider, Some("nav-windows-psnav-0"), Some("muninn:raven:x")),
        None
    );
    assert_eq!(
        matching_provider_advertised_hid_endpoint(&provider, Some("   "), Some("muninn:starfire:other")),
        None
    );
    assert_eq!(
        matching_provider_advertised_hid_endpoint(&provider, None, None).as_deref(),
        Some("198.51.100.66:17888")
    );
    let mut raven = starfire_provider();
    raven.verse_id = text("raven");
    raven.input_streams[0].address = text("10.0.0.7:17888");
    let providers = vec![raven, provider];
    assert_eq!(
        discover_available_hid_endpoint(
            &providers,
            Some("nav-windows-psnav-0"),
            Some("muninn:starfire:hid-controller-state"),
        )
        .as_deref(),
        Some("198.51.100.66:17888")
    );
    assert_eq!(
        discover_available_hid_endpoint(&providers, None, None).as_deref(),
        Some("10.0.0.7:17888")
    );
    assert_eq!(discover_available_hid_endpoint(&Vec::new(), None, None), None);
}

#[test]
fn health_reports_state_detail_and_message_id() {
    assert_eq!(health_state("connected"), "active");
    assert_eq!(health_state("idle"), "active");
    assert_eq!(health_state("discovering"), "degraded");
    assert_eq!(
        health_detail("connected", Some("10.0.0.2:9"), Some("pad-0"), Some(42), Some(340282366920938463463374607431768211455)),
        "Sleipnir connected: endpoint=10.0.0.2:9 device=pad-0 sequence=42 age_ms=340282366920938463463374607431768211455"
    );
    assert_eq!(
        health_detail("waiting", None, None, None, None),
        "Sleipnir waiting: endpoint=discovering device=unselected sequence=none age_ms=none"
    );
    assert_eq!(
        health_message_id("starfire-sleipnir", "2026-07-04T00:00:01.000Z"),
        "sleipnir-health:starfire-sleipnir:2026-07-04T00-00-01.000Z"
    );
}

#[test]
fn provider_and_daemon_ids_follow_the_host() {
    assert_eq!(sleipnir_provider_id("starfire"), "sleipnir.input-mirror.starfire");
    assert_eq!(sleipnir_daemon_id("starfire"), "starfire-sleipnir");
}

#[test]
fn provider_keys_are_sorted_and_unique() {
    assert_eq!(
        muninn_provider_keys(&args(&["starfire", "nightwing", "starfire", "raven"])),
        args(&["muninn.telemetry.nightwing", "muninn.telemetry.raven", "muninn.telemetry.starfire"])
    );
    assert!(muninn_provider_keys(&Vec::new()).is_empty());
}

#[test]
fn stream_state_prefers_recent_frames_over_the_handshake() {
    let handshaking = StreamFacts { has_recent_frame: true, transport_connected: false, has_target: true };
    assert_eq!(stream_state(true, Some(handshaking)), "connected");
    assert_eq!(
        stream_state(true, Some(StreamFacts { has_recent_frame: false, ..handshaking })),
        "connecting"
    );
    assert_eq!(
        stream_state(true, Some(StreamFacts { has_recent_frame: false, transport_connected: false, has_target: false })),
        "listening"
    );
    assert_eq!(stream_state(true, None), "discovering");
    assert_eq!(stream_state(false, Some(handshaking)), "idle");
    assert_eq!(virtual_backend(true, true), "logging.dry-run");
    assert_eq!(virtual_backend(false, true), "vigem.xbox360");
    assert_eq!(virtual_backend(false, false), "unavailable");
}

#[test]
fn device_filters_and_axis_labels() {
    assert_eq!(effective_device_filter(Some("nav"), Some("pad")).as_deref(), Some("nav"));
    assert_eq!(effective_device_filter(None, Some("pad")).as_deref(), Some("pad"));
    assert_eq!(effective_device_filter(None, None), None);
    assert_eq!(axis_binding_label(Some((1, true))), "axis 1 inverted");
    assert_eq!(axis_binding_label(Some((12, false))), "axis 12");
    assert_eq!(axis_binding_label(None), "unmapped");
}

fn surface_texts(document: &SurfaceDocument) -> Vec<String> {
    let mut texts = Vec::new();
    for element in &document.elements {
        for prop in &element.props {
            if let SurfaceScalar::Text(text) = &prop.value {
                texts.push(text.clone());
            }
        }
    }
    texts
}

fn surface_shows(document: &SurfaceDocument, needle: &str) -> bool {
    surface_texts(document).iter().any(|text| text.contains(needle))
}

fn axis_targets() -> Vec<AxisTarget> {
    vec![
        AxisTarget { target: "leftX".to_string(), source: 0, invert: false },
        AxisTarget { target: "leftY".to_string(), source: 1, invert: true },
        AxisTarget { target: "leftTrigger".to_string(), source: 2, invert: false },
        AxisTarget { target: "rightTrigger".to_string(), source: 5, invert: false },
    ]
}

fn surface_state() -> SleipnirRuntimeState {
    SleipnirRuntimeState {
        provider_id: "sleipnir.input-mirror.test".to_string(),
        selected_muninn_endpoint: Some("127.0.0.1:17888".to_string()),
        selected_device_filter: Some("nav".to_string()),
        presentation: "xbox360".to_string(),
        virtual_backend: "logging.dry-run".to_string(),
        stream_state: "connected".to_string(),
        last_device_id: Some("nav".to_string()),
        last_device_kind: Some("ps3-navigation".to_string()),
        last_sequence: Some(42),
        last_frame_age_ms: Some(3),
        last_input_latency: Some(SleipnirInputLatencySnapshot {
            device_id: "nav".to_string(),
            sequence: 42,
            source_to_arrival_ms: Some(2),
            arrival_to_buffer_ms: 3,
            buffer_to_axis_ms: 1,
            axis_to_hid_ms: 1,
            source_to_hid_ms: Some(7),
            total_observed_ms: 5,
            axis_summary: vec!["leftX<-axis0 value=0.500".to_string()],
            emitted: true,
        }),
        ignored_stream_frames: 0,
        available_devices: Vec::new(),
        axis_map: axis_targets(),
        button_map: default_button_map(),
        pending_learn: None,
        updated_at: "unix-1".to_string(),
    }
}

#[test]
fn surface_exposes_input_latency_and_axis_classification() {
    let state = surface_state();

    let surface = sleipnir_surface_document(&state);

    assert!(surface_shows(&surface, "Input Latency"));
    assert!(surface_shows(&surface, "arrival to buffer: 3 ms"));
    assert!(surface_shows(&surface, "buffer to axis classification: 1 ms"));
    assert!(surface_shows(&surface, "axis to HID emission: 1 ms"));
    assert!(surface_shows(&surface, "mapped axes: leftX<-axis0 value=0.500"));
}

fn find<'a>(document: &'a SurfaceDocument, id: &str) -> &'a SurfaceElement {
    document.elements.iter().find(|element| element.id == id).unwrap()
}

fn prop_text(element: &SurfaceElement, path: &[&str]) -> Option<String> {
    element
        .props
        .iter()
        .find(|prop| prop.path.iter().map(String::as_str).eq(path.iter().copied()))
        .and_then(|prop| match &prop.value {
            SurfaceScalar::Text(text) => Some(text.clone()),
            _ => None,
        })
}

#[test]
fn surface_lays_out_dashboard_panes_in_order() {
    let surface = sleipnir_surface_document(&surface_state());
    assert_eq!(surface.schema, "gamecult.eve.surface.v1");
    assert_eq!(surface.id, "sleipnir.input-mirror.test.surface");
    assert_eq!(surface.title, "Sleipnir Input Mirror");
    let root = &surface.elements[0];
    assert_eq!(root.depth, 0);
    assert_eq!(root.kind, "dashboard");
    assert_eq!(prop_text(root, &["summary"]).as_deref(), Some("connected via logging.dry-run"));
    let panes: Vec<&str> = surface
        .elements
        .iter()
        .filter(|element| element.depth == 1)
        .map(|element| element.id.as_str())
        .collect();
    assert_eq!(
        panes,
        vec![
            "sleipnir.input-mirror.test.runtime",
            "sleipnir.input-mirror.test.input",
            "sleipnir.input-mirror.test.latency",
            "sleipnir.input-mirror.test.axis",
            "sleipnir.input-mirror.test.remap",
            "sleipnir.input-mirror.test.binding-map-pane",
        ]
    );
    let empty = find(&surface, "sleipnir.input-mirror.test.devices.empty");
    assert_eq!(empty.depth, 3);
    assert_eq!(prop_text(empty, &["text"]).as_deref(), Some("no Muninn HID devices discovered"));
    let latency = find(&surface, "sleipnir.input-mirror.test.latency.total");
    assert_eq!(
        prop_text(latency, &["text"]).as_deref(),
        Some("observed mirror total: 5 ms / source to HID 7 ms")
    );
    let identity = find(&surface, "sleipnir.input-mirror.test.latency.identity");
    assert_eq!(prop_text(identity, &["text"]).as_deref(), Some("device: nav seq=42 emitted=true"));
}

#[test]
fn surface_marks_selected_and_available_devices() {
    let mut state = surface_state();
    let device = |id: &str, kind: &str, stream: &str| AvailableHidDevice {
        device_id: id.to_string(),
        device_kind: kind.to_string(),
        source_path: "/dev/hidraw0".to_string(),
        stream_id: stream.to_string(),
        host_id: "raven".to_string(),
        endpoint: "10.0.0.2:17888".to_string(),
    };
    state.available_devices = vec![
        device("Nav Pad:1", "nav", "muninn:raven:hid"),
        device("wheel", "g29", "muninn:raven:hid-2"),
    ];
    state.last_input_latency = None;
    let surface = sleipnir_surface_document(&state);
    let first = find(&surface, "sleipnir.input-mirror.test.device.nav-pad-1");
    assert_eq!(first.depth, 3);
    assert_eq!(prop_text(first, &["title"]).as_deref(), Some("selected Nav Pad:1"));
    assert_eq!(prop_text(first, &["action", "deviceFilter"]).as_deref(), Some("Nav Pad:1"));
    assert_eq!(prop_text(first, &["action", "streamId"]).as_deref(), Some("muninn:raven:hid"));
    let second = find(&surface, "sleipnir.input-mirror.test.device.wheel");
    assert_eq!(prop_text(second, &["title"]).as_deref(), Some("available wheel"));
    let host = find(&surface, "sleipnir.input-mirror.test.device.wheel.host");
    assert_eq!(host.depth, 4);
    assert_eq!(prop_text(host, &["text"]).as_deref(), Some("host: raven"));
    let empty_trace = find(&surface, "sleipnir.input-mirror.test.latency.empty");
    assert_eq!(prop_text(empty_trace, &["text"]).as_deref(), Some("no emitted input trace yet"));
    assert!(surface_shows(&surface, "mapped axes: none"));
}

#[test]
fn remap_presets_carry_filter_and_maps() {
    let mut state = surface_state();
    let cards = remap_preset_cards(&state);
    assert_eq!(cards.len(), 4);
    assert_eq!(cards[0].id, "sleipnir.input-mirror.test.remap.nav-to-xbox");
    assert_eq!(prop_text(&cards[0], &["action", "deviceFilter"]).as_deref(), Some("nav"));
    assert_eq!(prop_text(&cards[0], &["action", "buttonMap", "cross"]).as_deref(), Some("a"));
    assert!(cards[0].props.iter().any(|prop| prop.path.join(".") == "action.axisMap.leftY.invert"
        && matches!(prop.value, SurfaceScalar::Flag(true))));
    assert_eq!(cards[1].id, "sleipnir.input-mirror.test.remap.nav-to-xbox.detail");
    assert_eq!(prop_text(&cards[3], &["text"]).as_deref(), Some("presentation: xbox360"));
    assert!(cards[2].props.iter().any(|prop| prop.path.join(".") == "action.buttonMap"
        && matches!(prop.value, SurfaceScalar::EmptyObject)));
    state.selected_device_filter = None;
    let cards = remap_preset_cards(&state);
    assert!(cards[0].props.iter().any(|prop| prop.path.join(".") == "action.deviceFilter"
        && matches!(prop.value, SurfaceScalar::Null)));
}

#[test]
fn binding_map_shows_bindings_and_listening_target() {
    let mut state = surface_state();
    state.button_map = vec![
        ButtonBinding { source: "cross".to_string(), target: "a".to_string() },
        ButtonBinding { source: "trigger".to_string(), target: "none".to_string() },
        ButtonBinding { source: "circle".to_string(), target: "a".to_string() },
    ];
    state.pending_learn = Some(LearnRequest {
        target: "b".to_string(),
        binding_kind: "button".to_string(),
        requested_at: None,
    });
    let map = xbox_binding_map(&state);
    assert_eq!(map.len(), 20);
    assert_eq!(map[0].id, "sleipnir.input-mirror.test.binding-map");
    assert_eq!(map[0].kind, "input.binding-map");
    let target = |id: &str| map.iter().find(|element| element.id == id).unwrap();
    let left_y = target("sleipnir.input-mirror.test.binding.lefty");
    assert_eq!(prop_text(left_y, &["current"]).as_deref(), Some("axis 1 inverted"));
    assert_eq!(prop_text(left_y, &["x"]).as_deref(), Some("16%"));
    let a = target("sleipnir.input-mirror.test.binding.a");
    assert_eq!(prop_text(a, &["current"]).as_deref(), Some("cross, circle"));
    assert_eq!(
        prop_text(a, &["documentId"]).as_deref(),
        Some("cultmesh://sleipnir/sleipnir.input-mirror.test/binding/a")
    );
    assert!(!a.has_children);
    let embedded = a.embedded_document.as_ref().unwrap();
    assert_eq!(embedded.slot_id, "sleipnir.binding.a");
    assert_eq!(embedded.presentation_kind, "modal.binding");
    let b = target("sleipnir.input-mirror.test.binding.b");
    assert_eq!(prop_text(b, &["current"]).as_deref(), Some("listening..."));
    let start = target("sleipnir.input-mirror.test.binding.start");
    assert_eq!(prop_text(start, &["current"]).as_deref(), Some("unmapped"));
    state.axis_map.clear();
    let map = xbox_binding_map(&state);
    let left_x = map.iter().find(|element| element.id == "sleipnir.input-mirror.test.binding.leftx").unwrap();
    assert_eq!(prop_text(left_x, &["current"]).as_deref(), Some("unmapped"));
    assert_eq!(map.last().unwrap().depth, 3);
}

fn kinds(actions: &[SleipnirAction]) -> Vec<String> {
    actions
        .iter()
        .map(|action| match action {
            SleipnirAction::PullCatalog => "pull".to_string(),
            SleipnirAction::NeutralizePad => "neutral".to_string(),
            SleipnirAction::ResetCursor => "reset".to_string(),
            SleipnirAction::RecreateStream { discover } => format!("recreate:{discover}"),
            SleipnirAction::RetryDiscovery { discover } => format!("retry:{discover}"),
            SleipnirAction::UpdatePad { buttons } => format!("pad:{}", buttons.join("+")),
            SleipnirAction::PublishSurface { remote } => format!("publish:{remote}"),
        })
        .collect()
}

#[test]
fn loop_pulls_catalog_every_two_seconds_without_target() {
    let state = SleipnirLoopState::new(true, StreamLink::Listening, 0);
    let (state, actions) = sleipnir_step(&state, SleipnirEvent::IterationStarted { now: 100 });
    assert_eq!(kinds(&actions), vec!["pull"]);
    let (state, actions) = sleipnir_step(&state, SleipnirEvent::IterationStarted { now: 2_099 });
    assert!(actions.is_empty());
    let (state, actions) = sleipnir_step(&state, SleipnirEvent::IterationStarted { now: 2_100 });
    assert_eq!(kinds(&actions), vec!["pull"]);
    let (_, actions) = sleipnir_step(&state, SleipnirEvent::StreamMissing { now: 1_999 });
    assert!(actions.is_empty());
    let (state, actions) = sleipnir_step(&state, SleipnirEvent::StreamMissing { now: 2_000 });
    assert_eq!(kinds(&actions), vec!["retry:true"]);
    assert_eq!(state.last_discovery_attempt_at, 2_000);
    let (targeted, _) = sleipnir_step(&state, SleipnirEvent::StreamCreated { link: StreamLink::Targeted });
    let (_, actions) = sleipnir_step(&targeted, SleipnirEvent::IterationStarted { now: 9_000 });
    assert!(actions.is_empty());
}

#[test]
fn loop_neutralizes_stale_output_and_on_changes() {
    let state = SleipnirLoopState::new(true, StreamLink::Targeted, 0);
    let (state, _) = sleipnir_step(
        &state,
        SleipnirEvent::RecordApplied { now: 1_000, emitted: true, neutral: false, buttons: vec!["a".to_string()] },
    );
    let (state, actions) = sleipnir_step(&state, SleipnirEvent::ReceiveFinished { now: 2_499 });
    assert!(actions.is_empty());
    let (state, actions) = sleipnir_step(&state, SleipnirEvent::ReceiveFinished { now: 2_500 });
    assert_eq!(kinds(&actions), vec!["neutral"]);
    assert!(state.output_is_neutral);
    let (state, actions) = sleipnir_step(&state, SleipnirEvent::ConnectionStale { now: 3_000 });
    assert_eq!(kinds(&actions), vec!["recreate:true"]);
    let (state, _) = sleipnir_step(&state, SleipnirEvent::PadUpdated { now: 3_100, neutral: false });
    let (state, actions) = sleipnir_step(&state, SleipnirEvent::ConnectionStale { now: 3_200 });
    assert_eq!(kinds(&actions), vec!["neutral", "reset", "recreate:true"]);
    let (state, actions) = sleipnir_step(&state, SleipnirEvent::MappingChanged { now: 3_300, enabled: false });
    assert_eq!(kinds(&actions), vec!["neutral", "recreate:false", "reset"]);
    assert!(!state.mapping_enabled);
    let (state, _) = sleipnir_step(&state, SleipnirEvent::PadUpdated { now: 3_400, neutral: false });
    let (_, actions) = sleipnir_step(&state, SleipnirEvent::ReceiveFinished { now: 9_000 });
    assert!(actions.is_empty());
}

#[test]
fn loop_applies_button_edges_to_held_buttons() {
    let state = SleipnirLoopState::new(true, StreamLink::Targeted, 0);
    let (same, actions) = sleipnir_step(
        &state,
        SleipnirEvent::EdgeReleased { button: "b".to_string(), pressed: true },
    );
    assert!(actions.is_empty());
    assert!(same.held_buttons.is_none());
    let (state, _) = sleipnir_step(
        &state,
        SleipnirEvent::RecordApplied { now: 10, emitted: false, neutral: false, buttons: vec!["a".to_string()] },
    );
    assert!(state.output_is_neutral);
    let (state, actions) = sleipnir_step(
        &state,
        SleipnirEvent::EdgeReleased { button: "b".to_string(), pressed: true },
    );
    assert_eq!(kinds(&actions), vec!["pad:a+b"]);
    let (state, actions) = sleipnir_step(
        &state,
        SleipnirEvent::EdgeReleased { button: "a".to_string(), pressed: true },
    );
    assert_eq!(kinds(&actions), vec!["pad:a+b"]);
    let (state, actions) = sleipnir_step(
        &state,
        SleipnirEvent::EdgeReleased { button: "a".to_string(), pressed: false },
    );
    assert_eq!(kinds(&actions), vec!["pad:b"]);
    assert_eq!(state.held_buttons, Some(vec!["b".to_string()]));
    let held = vec!["x".to_string(), "y".to_string()];
    let pressed = apply_edge(&held, &"z".to_string(), true);
    assert_eq!(apply_edge(&pressed, &"z".to_string(), false), held);
}

#[test]
fn loop_publishes_after_input_and_without_target() {
    let state = SleipnirLoopState::new(true, StreamLink::Targeted, 0);
    let (state, actions) = sleipnir_step(&state, SleipnirEvent::IterationFinished { now: 10 });
    assert!(actions.is_empty());
    let (state, _) = sleipnir_step(
        &state,
        SleipnirEvent::RecordApplied { now: 20, emitted: true, neutral: true, buttons: Vec::new() },
    );
    let (state, actions) = sleipnir_step(&state, SleipnirEvent::IterationFinished { now: 30 });
    assert_eq!(kinds(&actions), vec!["publish:true"]);
    assert!(!state.applied_since_check);
    let (state, _) = sleipnir_step(
        &state,
        SleipnirEvent::RecordApplied { now: 500, emitted: true, neutral: true, buttons: Vec::new() },
    );
    let (state, actions) = sleipnir_step(&state, SleipnirEvent::IterationFinished { now: 1_029 });
    assert!(actions.is_empty());
    let (state, _) = sleipnir_step(&state, SleipnirEvent::StreamCreated { link: StreamLink::Absent });
    let (state, actions) = sleipnir_step(&state, SleipnirEvent::IterationFinished { now: 5_029 });
    assert!(actions.is_empty());
    let (_, actions) = sleipnir_step(&state, SleipnirEvent::IterationFinished { now: 5_030 });
    assert_eq!(kinds(&actions), vec!["publish:false"]);
}

fn listed(host: &str, device: &str, endpoint: &str, path: &str) -> AvailableHidDevice {
    AvailableHidDevice {
        device_id: device.to_string(),
        device_kind: "gamepad".to_string(),
        source_path: path.to_string(),
        stream_id: format!("muninn:{host}:hid"),
        host_id: host.to_string(),
        endpoint: endpoint.to_string(),
    }
}

#[test]
fn upsert_sorts_an_unordered_list_by_host_device_and_endpoint() {
    let mut devices = vec![
        listed("raven", "pad", "10.0.0.2:1", "/dev/a"),
        listed("ash", "wheel", "10.0.0.9:1", "/dev/b"),
        listed("raven", "pad", "10.0.0.1:1", "/dev/c"),
    ];
    upsert_available_hid_device(&mut devices, listed("ash", "nav", "discovering", ""));
    let order: Vec<(String, String, String)> = devices
        .iter()
        .map(|d| (d.host_id.clone(), d.device_id.clone(), d.endpoint.clone()))
        .collect();
    assert_eq!(
        order,
        vec![
            ("ash".to_string(), "nav".to_string(), "discovering".to_string()),
            ("ash".to_string(), "wheel".to_string(), "10.0.0.9:1".to_string()),
            ("raven".to_string(), "pad".to_string(), "10.0.0.1:1".to_string()),
            ("raven".to_string(), "pad".to_string(), "10.0.0.2:1".to_string()),
        ]
    );
    // The first entry of a repeated key is the one that is replaced.
    let mut devices = vec![
        listed("raven", "pad", "10.0.0.2:1", "/dev/a"),
        listed("raven", "pad", "10.0.0.1:1", "/dev/c"),
    ];
    upsert_available_hid_device(&mut devices, listed("raven", "pad", "10.0.0.3:1", "/dev/z"));
    let endpoints: Vec<&str> = devices.iter().map(|d| d.endpoint.as_str()).collect();
    assert_eq!(endpoints, vec!["10.0.0.1:1", "10.0.0.3:1"]);
    assert_eq!(devices[1].source_path, "/dev/z");
}

#[test]
fn surface_elements_form_a_preorder_tree() {
    let mut state = surface_state();
    state.available_devices = vec![listed("raven", "pad", "10.0.0.1:1", "/dev/a")];
    let surface = sleipnir_surface_document(&state);
    assert_eq!(surface.elements[0].depth, 0);
    for pair in surface.elements.windows(2) {
        assert!(pair[1].depth >= 1);
        assert!(pair[1].depth <= pair[0].depth + 1);
    }
    assert_eq!(surface.elements.iter().filter(|e| e.depth == 0).count(), 1);
}

fn raven_options() -> Options {
    Options {
        store_path: "/var/lib/sleipnir/raven.cultcache".to_string(),
        discovery_store_path: None,
        mapping_path: None,
        device_filter: None,
        host_id: "raven".to_string(),
        interval_ms: 8,
        odin_cultmesh_uri: None,
        rudp_bind: None,
        command_route: SLEIPNIR_COMMAND_ROUTE.to_string(),
        idunn_rudp_health: None,
        once: false,
        dry_run: true,
        trace: false,
    }
}

#[test]
fn provider_advertisement_names_service_store_and_command_route() {
    let options = raven_options();
    let mut state = surface_state();
    state.provider_id = "sleipnir.input-mirror.raven".to_string();
    let ad = sleipnir_provider_advertisement(&options, &state);
    assert_eq!(ad.schema, "gamecult.eve.provider_advertisement.v1");
    assert_eq!(ad.provider_id, "sleipnir.input-mirror.raven");
    assert_eq!(ad.daemon_id, "raven-sleipnir");
    assert_eq!(ad.title, "Sleipnir Raven Input Mirror");
    assert_eq!(ad.canonical_service, "asgard.sleipnir");
    assert_eq!(ad.located_service, "asgard.raven.sleipnir");
    assert_eq!(ad.verse_id, "raven.local");
    assert_eq!(ad.cult_mesh_address, "asgard.raven.sleipnir/input-mirror");
    assert_eq!(ad.status, "connected");
    assert_eq!(ad.mode, "daemon-live");
    assert_eq!(ad.updated_at, "unix-1");
    assert_eq!(ad.state_store, "/var/lib/sleipnir/raven.cultcache");
    assert_eq!(ad.surface_id, "sleipnir.input-mirror.raven");
    assert_eq!(
        ad.capabilities,
        vec!["muninn.input.discovery", "cultmesh.input.stream.consumer", "virtual-hid.xinput"]
    );
    assert_eq!(ad.endpoints.len(), 1);
    assert_eq!(ad.endpoints[0].transport, "cultcache-store");
    assert_eq!(ad.endpoints[0].address, "/var/lib/sleipnir/raven.cultcache");
    assert!(ad.endpoints[0].resolver.is_none());
    assert_eq!(ad.routes.len(), 2);
    assert_eq!(ad.routes[0].transport, "cultcache-store");
    let command = &ad.routes[1];
    assert_eq!(command.transport, "cultnet.transport.rudp.v0");
    assert_eq!(command.address, "cultmesh://odin/command/sleipnir/input_mapping");
    assert_eq!(command.resolver.as_deref(), Some("odin-cultmesh"));
    assert_eq!(command.schema.as_deref(), Some("sleipnir.input_mapping.v1"));
    assert_eq!(command.role.as_deref(), Some("sleipnir.input_mapping.command"));
    assert_eq!(command.channel.as_deref(), Some("schema"));
}

#[test]
fn surface_state_record_carries_title_version_and_surface() {
    let options = raven_options();
    let state = surface_state();
    let record = sleipnir_surface_state(&options, &state, 1_782_000_000_000);
    assert_eq!(record.provider_id, "sleipnir.input-mirror.test");
    assert_eq!(record.title, "Sleipnir Raven Input Mirror");
    assert_eq!(record.version, 1_782_000_000_000);
    assert_eq!(record.updated_at, "unix-1");
    assert_eq!(record.surface.id, "sleipnir.input-mirror.test.surface");
}

#[test]
fn title_case_uppercases_the_first_character_only() {
    assert_eq!(title_case("raven"), "Raven");
    assert_eq!(title_case(""), "");
    assert_eq!(title_case("éclair-2"), "Éclair-2");
    assert_eq!(title_case("ßeta"), "SSeta");
    assert_eq!(sleipnir_provider_title("nightwing"), "Sleipnir Nightwing Input Mirror");
}
