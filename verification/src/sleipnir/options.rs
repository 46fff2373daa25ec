//! Sleipnir's command line: flags, their values, and the flags that have
//! been removed.
use vstd::prelude::*;
use crate::documents::opt_view;
use crate::text::{chars_of, parse_u64_chars, parse_u64_spec, str_eq, trim, trim_bounds};

verus! {

pub const SLEIPNIR_COMMAND_ROUTE: &'static str = "cultmesh://odin/command/sleipnir/input_mapping";

/// Where Sleipnir reports its health to Idunn over RUDP.
#[derive(Clone, Debug, PartialEq, Eq)]
pub struct IdunnRudpHealthOptions {
    pub endpoint: String,
    pub daemon_id: String,
    pub health_contract: String,
}

/// Sleipnir's settings. Socket addresses are kept as the text that was
/// checked to parse as one.
#[derive(Clone, Debug, PartialEq, Eq)]
pub struct Options {
    pub store_path: String,
    pub discovery_store_path: Option<String>,
    pub mapping_path: Option<String>,
    pub device_filter: Option<String>,
    pub host_id: String,
    pub interval_ms: u64,
    pub odin_cultmesh_uri: Option<String>,
    pub rudp_bind: Option<String>,
    pub command_route: String,
    pub idunn_rudp_health: Option<IdunnRudpHealthOptions>,
    pub once: bool,
    pub dry_run: bool,
    pub trace: bool,
}

/// Why a command line was not accepted.
#[derive(Clone, Debug, PartialEq, Eq)]
pub enum OptionsError {
    MissingValue(String),
    InvalidInterval,
    InvalidRudpBind,
    CommandRudpBindRemoved,
    CommandRudpAdvertiseRemoved,
    OdinCultmeshRudpRemoved,
    InvalidIdunnHealthEndpoint,
    IdunnHealthIncomplete,
    HelpRequested,
    Unrecognized(String),
}

/// Sleipnir's settings as text.
pub ghost struct OptionsView {
    pub store_path: Seq<char>,
    pub discovery_store_path: Option<Seq<char>>,
    pub mapping_path: Option<Seq<char>>,
    pub device_filter: Option<Seq<char>>,
    pub host_id: Seq<char>,
    pub interval_ms: u64,
    pub odin_cultmesh_uri: Option<Seq<char>>,
    pub rudp_bind: Option<Seq<char>>,
    pub command_route: Seq<char>,
    pub idunn_rudp_health: Option<(Seq<char>, Seq<char>, Seq<char>)>,
    pub once: bool,
    pub dry_run: bool,
    pub trace: bool,
}

pub ghost enum OptionsErrorView {
    MissingValue(Seq<char>),
    InvalidInterval,
    InvalidRudpBind,
    CommandRudpBindRemoved,
    CommandRudpAdvertiseRemoved,
    OdinCultmeshRudpRemoved,
    InvalidIdunnHealthEndpoint,
    IdunnHealthIncomplete,
    HelpRequested,
    Unrecognized(Seq<char>),
}

impl View for Options {
    type V = OptionsView;

    open spec fn view(&self) -> OptionsView {
        OptionsView {
            store_path: self.store_path@,
            discovery_store_path: opt_view(self.discovery_store_path),
            mapping_path: opt_view(self.mapping_path),
            device_filter: opt_view(self.device_filter),
            host_id: self.host_id@,
            interval_ms: self.interval_ms,
            odin_cultmesh_uri: opt_view(self.odin_cultmesh_uri),
            rudp_bind: opt_view(self.rudp_bind),
            command_route: self.command_route@,
            idunn_rudp_health: match self.idunn_rudp_health {
                Some(h) => Some((h.endpoint@, h.daemon_id@, h.health_contract@)),
                None => None,
            },
            once: self.once,
            dry_run: self.dry_run,
            trace: self.trace,
        }
    }
}

impl View for OptionsError {
    type V = OptionsErrorView;

    open spec fn view(&self) -> OptionsErrorView {
        match self {
            OptionsError::MissingValue(f) => OptionsErrorView::MissingValue(f@),
            OptionsError::InvalidInterval => OptionsErrorView::InvalidInterval,
            OptionsError::InvalidRudpBind => OptionsErrorView::InvalidRudpBind,
            OptionsError::CommandRudpBindRemoved => OptionsErrorView::CommandRudpBindRemoved,
            OptionsError::CommandRudpAdvertiseRemoved => OptionsErrorView::CommandRudpAdvertiseRemoved,
            OptionsError::OdinCultmeshRudpRemoved => OptionsErrorView::OdinCultmeshRudpRemoved,
            OptionsError::InvalidIdunnHealthEndpoint => OptionsErrorView::InvalidIdunnHealthEndpoint,
            OptionsError::IdunnHealthIncomplete => OptionsErrorView::IdunnHealthIncomplete,
            OptionsError::HelpRequested => OptionsErrorView::HelpRequested,
            OptionsError::Unrecognized(a) => OptionsErrorView::Unrecognized(a@),
        }
    }
}

/// The parser's state: the settings so far and the three Idunn health
/// values, which must come together.
pub ghost struct ParseState {
    pub options: OptionsView,
    pub health_endpoint: Option<Seq<char>>,
    pub health_daemon: Option<Seq<char>>,
    pub health_contract: Option<Seq<char>>,
}

/// The settings before any flag: the Starfire telemetry store, host
/// `starfire`, an 8 ms interval, Odin's provider catalog and the input
/// mapping route; tracing as the environment asks.
pub open spec fn default_options(trace: bool) -> OptionsView {
    OptionsView {
        store_path: "C:/Meta/Odin/state/starfire.muninn.telemetry.cc"@,
        discovery_store_path: None,
        mapping_path: None,
        device_filter: None,
        host_id: "starfire"@,
        interval_ms: 8,
        odin_cultmesh_uri: Some("cultmesh://odin/rendezvous/provider-catalog"@),
        rudp_bind: None,
        command_route: "cultmesh://odin/command/sleipnir/input_mapping"@,
        idunn_rudp_health: None,
        once: false,
        dry_run: false,
        trace,
    }
}

/// Whether argument `i + 1` exists and is not blank: the value of the
/// flag at `i`.
pub open spec fn has_value(a: Seq<Seq<char>>, i: int) -> bool {
    i + 1 < a.len() && trim(a[i + 1]).len() > 0
}

/// Whether argument `k` parses as a socket address.
pub open spec fn address_ok(ok: Seq<bool>, k: int) -> bool {
    0 <= k < ok.len() && ok[k]
}

/// The settings once every argument is read: the Idunn health values all
/// together or none of them.
pub open spec fn finish_parse(st: ParseState) -> Result<OptionsView, OptionsErrorView> {
    match (st.health_endpoint, st.health_daemon, st.health_contract) {
        (None, None, None) => Ok(OptionsView { idunn_rudp_health: None, ..st.options }),
        (Some(e), Some(d), Some(c)) => Ok(OptionsView { idunn_rudp_health: Some((e, d, c)), ..st.options }),
        _ => Err(OptionsErrorView::IdunnHealthIncomplete),
    }
}

/// Reads the arguments from `i` on.
pub open spec fn parse_from(a: Seq<Seq<char>>, ok: Seq<bool>, i: int, st: ParseState) -> Result<
    OptionsView,
    OptionsErrorView,
>
    decreases a.len() - i,
{
    if i < 0 || i >= a.len() {
        finish_parse(st)
    } else {
        let arg = a[i];
        let o = st.options;
        if arg == "--once"@ {
            parse_from(a, ok, i + 1, ParseState { options: OptionsView { once: true, ..o }, ..st })
        } else if arg == "--dry-run"@ {
            parse_from(a, ok, i + 1, ParseState { options: OptionsView { dry_run: true, ..o }, ..st })
        } else if arg == "--trace"@ {
            parse_from(a, ok, i + 1, ParseState { options: OptionsView { trace: true, ..o }, ..st })
        } else if arg == "--help"@ || arg == "-h"@ {
            Err(OptionsErrorView::HelpRequested)
        } else if arg == "--command-rudp-advertise"@ {
            Err(OptionsErrorView::CommandRudpAdvertiseRemoved)
        } else if arg == "--store"@ || arg == "--discovery-store"@ || arg == "--mapping"@ || arg
            == "--mapping-path"@ || arg == "--device"@ || arg == "--host"@ || arg == "--interval-ms"@
            || arg == "--rudp-bind"@ || arg == "--udp-bind"@ || arg == "--command-rudp-bind"@ || arg
            == "--command-route"@ || arg == "--odin-cultmesh-rudp"@ || arg == "--odin-cultmesh-uri"@
            || arg == "--idunn-rudp-health"@ || arg == "--idunn-daemon"@ || arg
            == "--idunn-health-contract"@ {
            if !has_value(a, i) {
                Err(OptionsErrorView::MissingValue(arg))
            } else {
                let v = a[i + 1];
                if arg == "--store"@ {
                    parse_from(a, ok, i + 2, ParseState { options: OptionsView { store_path: v, ..o }, ..st })
                } else if arg == "--discovery-store"@ {
                    parse_from(
                        a,
                        ok,
                        i + 2,
                        ParseState { options: OptionsView { discovery_store_path: Some(v), ..o }, ..st },
                    )
                } else if arg == "--mapping"@ || arg == "--mapping-path"@ {
                    parse_from(
                        a,
                        ok,
                        i + 2,
                        ParseState { options: OptionsView { mapping_path: Some(v), ..o }, ..st },
                    )
                } else if arg == "--device"@ {
                    parse_from(
                        a,
                        ok,
                        i + 2,
                        ParseState { options: OptionsView { device_filter: Some(v), ..o }, ..st },
                    )
                } else if arg == "--host"@ {
                    parse_from(a, ok, i + 2, ParseState { options: OptionsView { host_id: v, ..o }, ..st })
                } else if arg == "--interval-ms"@ {
                    match parse_u64_spec(v) {
                        Some(n) => parse_from(
                            a,
                            ok,
                            i + 2,
                            ParseState { options: OptionsView { interval_ms: n, ..o }, ..st },
                        ),
                        None => Err(OptionsErrorView::InvalidInterval),
                    }
                } else if arg == "--rudp-bind"@ || arg == "--udp-bind"@ {
                    if address_ok(ok, i + 1) {
                        parse_from(
                            a,
                            ok,
                            i + 2,
                            ParseState { options: OptionsView { rudp_bind: Some(v), ..o }, ..st },
                        )
                    } else {
                        Err(OptionsErrorView::InvalidRudpBind)
                    }
                } else if arg == "--command-rudp-bind"@ {
                    Err(OptionsErrorView::CommandRudpBindRemoved)
                } else if arg == "--command-route"@ {
                    parse_from(
                        a,
                        ok,
                        i + 2,
                        ParseState { options: OptionsView { command_route: v, ..o }, ..st },
                    )
                } else if arg == "--odin-cultmesh-rudp"@ {
                    Err(OptionsErrorView::OdinCultmeshRudpRemoved)
                } else if arg == "--odin-cultmesh-uri"@ {
                    parse_from(
                        a,
                        ok,
                        i + 2,
                        ParseState { options: OptionsView { odin_cultmesh_uri: Some(v), ..o }, ..st },
                    )
                } else if arg == "--idunn-rudp-health"@ {
                    if address_ok(ok, i + 1) {
                        parse_from(a, ok, i + 2, ParseState { health_endpoint: Some(v), ..st })
                    } else {
                        Err(OptionsErrorView::InvalidIdunnHealthEndpoint)
                    }
                } else if arg == "--idunn-daemon"@ {
                    parse_from(a, ok, i + 2, ParseState { health_daemon: Some(v), ..st })
                } else {
                    parse_from(a, ok, i + 2, ParseState { health_contract: Some(v), ..st })
                }
            }
        } else {
            Err(OptionsErrorView::Unrecognized(arg))
        }
    }
}

/// The settings a command line gives, or why it is refused.
pub open spec fn parse_spec(a: Seq<Seq<char>>, ok: Seq<bool>, trace: bool) -> Result<
    OptionsView,
    OptionsErrorView,
> {
    parse_from(
        a,
        ok,
        0,
        ParseState {
            options: default_options(trace),
            health_endpoint: None,
            health_daemon: None,
            health_contract: None,
        },
    )
}

pub open spec fn arg_views(args: Seq<String>) -> Seq<Seq<char>> {
    args.map_values(|s: String| s@)
}


pub open spec fn state_view(
    o: Options,
    e: Option<String>,
    d: Option<String>,
    c: Option<String>,
) -> ParseState {
    ParseState { options: o@, health_endpoint: opt_view(e), health_daemon: opt_view(d), health_contract: opt_view(c) }
}

fn flag_value(args: &Vec<String>, i: usize) -> (r: Option<String>)
    requires
        i < args@.len(),
    ensures
        match r {
            Some(v) => has_value(arg_views(args@), i as int) && v@ == arg_views(args@)[i + 1],
            None => !has_value(arg_views(args@), i as int),
        },
{
    if i >= args.len() - 1 {
        return None;
    }
    let v = chars_of(args[i + 1].as_str());
    let (a, b) = trim_bounds(v.as_slice());
    if a == b {
        None
    } else {
        Some(crate::documents::copy_string(&args[i + 1]))
    }
}

fn address_ok_at(ok: &Vec<bool>, k: usize) -> (r: bool)
    ensures
        r == address_ok(ok@, k as int),
{
    k < ok.len() && ok[k]
}

/// Reads Sleipnir's command line. `address_ok[k]` tells whether argument
/// `k` parses as a socket address; `trace` is the tracing default the
/// environment asks for.
pub fn parse_options(args: &Vec<String>, address_ok: &Vec<bool>, trace: bool) -> (r: Result<
    Options,
    OptionsError,
>)
    ensures
        match parse_spec(arg_views(args@), address_ok@, trace) {
            Ok(o) => r matches Ok(x) && x@ == o,
            Err(e) => r matches Err(x) && x@ == e,
        },
{
    let ghost a = arg_views(args@);
    let mut options = Options {
        store_path: "C:/Meta/Odin/state/starfire.muninn.telemetry.cc".to_string(),
        discovery_store_path: None,
        mapping_path: None,
        device_filter: None,
        host_id: "starfire".to_string(),
        interval_ms: 8,
        odin_cultmesh_uri: Some("cultmesh://odin/rendezvous/provider-catalog".to_string()),
        rudp_bind: None,
        command_route: SLEIPNIR_COMMAND_ROUTE.to_string(),
        idunn_rudp_health: None,
        once: false,
        dry_run: false,
        trace,
    };
    let mut endpoint: Option<String> = None;
    let mut daemon: Option<String> = None;
    let mut contract: Option<String> = None;
    let mut i: usize = 0;
    while i < args.len()
        invariant
            a == arg_views(args@),
            a.len() == args@.len(),
            i <= args@.len(),
            parse_spec(a, address_ok@, trace) == parse_from(
                a,
                address_ok@,
                i as int,
                state_view(options, endpoint, daemon, contract),
            ),
        decreases args@.len() - i,
    {
        let arg = args[i].as_str();
        assert(arg@ == a[i as int]);
        if str_eq(arg, "--once") {
            options.once = true;
            i = i + 1;
        } else if str_eq(arg, "--dry-run") {
            options.dry_run = true;
            i = i + 1;
        } else if str_eq(arg, "--trace") {
            options.trace = true;
            i = i + 1;
        } else if str_eq(arg, "--help") || str_eq(arg, "-h") {
            return Err(OptionsError::HelpRequested);
        } else if str_eq(arg, "--command-rudp-advertise") {
            return Err(OptionsError::CommandRudpAdvertiseRemoved);
        } else if str_eq(arg, "--store") || str_eq(arg, "--discovery-store") || str_eq(arg, "--mapping")
            || str_eq(arg, "--mapping-path") || str_eq(arg, "--device") || str_eq(arg, "--host")
            || str_eq(arg, "--interval-ms") || str_eq(arg, "--rudp-bind") || str_eq(arg, "--udp-bind")
            || str_eq(arg, "--command-rudp-bind") || str_eq(arg, "--command-route") || str_eq(
            arg,
            "--odin-cultmesh-rudp",
        ) || str_eq(arg, "--odin-cultmesh-uri") || str_eq(arg, "--idunn-rudp-health") || str_eq(
            arg,
            "--idunn-daemon",
        ) || str_eq(arg, "--idunn-health-contract") {
            let v = match flag_value(args, i) {
                Some(v) => v,
                None => {
                    return Err(OptionsError::MissingValue(arg.to_string()));
                },
            };
            if str_eq(arg, "--store") {
                options.store_path = v;
            } else if str_eq(arg, "--discovery-store") {
                options.discovery_store_path = Some(v);
            } else if str_eq(arg, "--mapping") || str_eq(arg, "--mapping-path") {
                options.mapping_path = Some(v);
            } else if str_eq(arg, "--device") {
                options.device_filter = Some(v);
            } else if str_eq(arg, "--host") {
                options.host_id = v;
            } else if str_eq(arg, "--interval-ms") {
                let chars = chars_of(v.as_str());
                match parse_u64_chars(chars.as_slice(), 0, chars.len()) {
                    Some(n) => {
                        assert(chars@.subrange(0, chars@.len() as int) =~= v@);
                        options.interval_ms = n;
                    },
                    None => {
                        assert(chars@.subrange(0, chars@.len() as int) =~= v@);
                        return Err(OptionsError::InvalidInterval);
                    },
                }
            } else if str_eq(arg, "--rudp-bind") || str_eq(arg, "--udp-bind") {
                if address_ok_at(address_ok, i + 1) {
                    options.rudp_bind = Some(v);
                } else {
                    return Err(OptionsError::InvalidRudpBind);
                }
            } else if str_eq(arg, "--command-rudp-bind") {
                return Err(OptionsError::CommandRudpBindRemoved);
            } else if str_eq(arg, "--command-route") {
                options.command_route = v;
            } else if str_eq(arg, "--odin-cultmesh-rudp") {
                return Err(OptionsError::OdinCultmeshRudpRemoved);
            } else if str_eq(arg, "--odin-cultmesh-uri") {
                options.odin_cultmesh_uri = Some(v);
            } else if str_eq(arg, "--idunn-rudp-health") {
                if address_ok_at(address_ok, i + 1) {
                    endpoint = Some(v);
                } else {
                    return Err(OptionsError::InvalidIdunnHealthEndpoint);
                }
            } else if str_eq(arg, "--idunn-daemon") {
                daemon = Some(v);
            } else {
                contract = Some(v);
            }
            i = i + 2;
        } else {
            return Err(OptionsError::Unrecognized(arg.to_string()));
        }
    }
    match (endpoint, daemon, contract) {
        (None, None, None) => {
            options.idunn_rudp_health = None;
            Ok(options)
        },
        (Some(e), Some(d), Some(c)) => {
            options.idunn_rudp_health = Some(
                IdunnRudpHealthOptions { endpoint: e, daemon_id: d, health_contract: c },
            );
            Ok(options)
        },
        _ => Err(OptionsError::IdunnHealthIncomplete),
    }
}

/// Sleipnir's usage line.
pub fn usage() -> (r: &'static str)
    ensures
        r@ == usage_text(),
{
    "usage: sleipnir [--store PATH] [--discovery-store PATH] [--mapping-path LEGACY_PATH] [--host HOST] [--device DEVICE_OR_KIND] [--odin-cultmesh-uri cultmesh://...] [--rudp-bind ADDR] [--command-route cultmesh://...] [--idunn-rudp-health ADDR --idunn-daemon ID --idunn-health-contract CONTRACT] [--interval-ms N] [--trace] [--dry-run] [--once]"
}

pub open spec fn usage_text() -> Seq<char> {
    "usage: sleipnir [--store PATH] [--discovery-store PATH] [--mapping-path LEGACY_PATH] [--host HOST] [--device DEVICE_OR_KIND] [--odin-cultmesh-uri cultmesh://...] [--rudp-bind ADDR] [--command-route cultmesh://...] [--idunn-rudp-health ADDR --idunn-daemon ID --idunn-health-contract CONTRACT] [--interval-ms N] [--trace] [--dry-run] [--once]"@
}

impl OptionsError {
    /// The text this error is reported with.
    pub fn message(&self) -> (r: String)
        ensures
            r@ == match *self {
                OptionsError::MissingValue(f) => f@ + " requires a value"@,
                OptionsError::InvalidInterval => "--interval-ms must be an integer"@,
                OptionsError::InvalidRudpBind => "--rudp-bind must be a socket address"@,
                OptionsError::CommandRudpBindRemoved => "--command-rudp-bind has been removed; Sleipnir reads input mapping commands from Odin/CultMesh discovery"@,
                OptionsError::CommandRudpAdvertiseRemoved => "--command-rudp-advertise has been removed; use --command-route with a cultmesh:// Odin command route"@,
                OptionsError::OdinCultmeshRudpRemoved => "--odin-cultmesh-rudp has been removed; use --odin-cultmesh-uri cultmesh://odin/rendezvous/provider-catalog and let CultMesh resolve Odin's transport"@,
                OptionsError::InvalidIdunnHealthEndpoint => "--idunn-rudp-health must be a socket address"@,
                OptionsError::IdunnHealthIncomplete => "--idunn-rudp-health, --idunn-daemon, and --idunn-health-contract must be provided together"@,
                OptionsError::HelpRequested => usage_text(),
                OptionsError::Unrecognized(a) => "unrecognized argument "@ + a@ + "\n"@ + usage_text(),
            },
    {
        match self {
            OptionsError::MissingValue(f) => {
                let mut s = crate::documents::copy_string(f);
                crate::text::push_str(&mut s, " requires a value");
                s
            },
            OptionsError::InvalidInterval => "--interval-ms must be an integer".to_string(),
            OptionsError::InvalidRudpBind => "--rudp-bind must be a socket address".to_string(),
            OptionsError::CommandRudpBindRemoved => "--command-rudp-bind has been removed; Sleipnir reads input mapping commands from Odin/CultMesh discovery".to_string(),
            OptionsError::CommandRudpAdvertiseRemoved => "--command-rudp-advertise has been removed; use --command-route with a cultmesh:// Odin command route".to_string(),
            OptionsError::OdinCultmeshRudpRemoved => "--odin-cultmesh-rudp has been removed; use --odin-cultmesh-uri cultmesh://odin/rendezvous/provider-catalog and let CultMesh resolve Odin's transport".to_string(),
            OptionsError::InvalidIdunnHealthEndpoint => "--idunn-rudp-health must be a socket address".to_string(),
            OptionsError::IdunnHealthIncomplete => "--idunn-rudp-health, --idunn-daemon, and --idunn-health-contract must be provided together".to_string(),
            OptionsError::HelpRequested => usage().to_string(),
            OptionsError::Unrecognized(a) => {
                let mut s = crate::text::join3("unrecognized argument ", a.as_str(), "\n");
                crate::text::push_str(&mut s, usage());
                s
            },
        }
    }
}
/// No `--idunn-rudp-health` flag from argument `i` on, and no health
/// endpoint so far, leaves a parse without a health target.
pub open spec fn no_health_target(r: Result<OptionsView, OptionsErrorView>, st: ParseState, a: Seq<Seq<char>>, i: int) -> bool {
    ((forall|k: int| i <= k < a.len() ==> #[trigger] a[k] != "--idunn-rudp-health"@) && st.health_endpoint is None)
        ==> (r matches Ok(o) ==> o.idunn_rudp_health is None)
}

proof fn lemma_no_health_target(a: Seq<Seq<char>>, ok: Seq<bool>, i: int)
    requires
        0 <= i <= a.len(),
    ensures
        forall|st: ParseState| #![trigger parse_from(a, ok, i, st)] no_health_target(parse_from(a, ok, i, st), st, a, i),
    decreases a.len() - i,
{
    if i < a.len() {
        lemma_no_health_target(a, ok, i + 1);
        if i + 2 <= a.len() {
            lemma_no_health_target(a, ok, i + 2);
        }
        assert forall|st: ParseState| #![trigger parse_from(a, ok, i, st)] no_health_target(parse_from(a, ok, i, st), st, a, i) by {
            if (forall|k: int| i <= k < a.len() ==> #[trigger] a[k] != "--idunn-rudp-health"@) && st.health_endpoint is None {
                let o = st.options;
                assert(a[i] != "--idunn-rudp-health"@);
                assert(forall|k: int| i + 1 <= k < a.len() ==> #[trigger] a[k] != "--idunn-rudp-health"@);
                let s1 = ParseState { options: OptionsView { once: true, ..o }, ..st };
                assert(no_health_target(parse_from(a, ok, i + 1, s1), s1, a, i + 1));
                let s1 = ParseState { options: OptionsView { dry_run: true, ..o }, ..st };
                assert(no_health_target(parse_from(a, ok, i + 1, s1), s1, a, i + 1));
                let s1 = ParseState { options: OptionsView { trace: true, ..o }, ..st };
                assert(no_health_target(parse_from(a, ok, i + 1, s1), s1, a, i + 1));
                if has_value(a, i) {
                    let v = a[i + 1];
                    assert(forall|k: int| i + 2 <= k < a.len() ==> #[trigger] a[k] != "--idunn-rudp-health"@);
                    let s2 = ParseState { options: OptionsView { store_path: v, ..o }, ..st };
                    assert(no_health_target(parse_from(a, ok, i + 2, s2), s2, a, i + 2));
                    let s2 = ParseState { options: OptionsView { discovery_store_path: Some(v), ..o }, ..st };
                    assert(no_health_target(parse_from(a, ok, i + 2, s2), s2, a, i + 2));
                    let s2 = ParseState { options: OptionsView { mapping_path: Some(v), ..o }, ..st };
                    assert(no_health_target(parse_from(a, ok, i + 2, s2), s2, a, i + 2));
                    let s2 = ParseState { options: OptionsView { device_filter: Some(v), ..o }, ..st };
                    assert(no_health_target(parse_from(a, ok, i + 2, s2), s2, a, i + 2));
                    let s2 = ParseState { options: OptionsView { host_id: v, ..o }, ..st };
                    assert(no_health_target(parse_from(a, ok, i + 2, s2), s2, a, i + 2));
                    let s2 = ParseState { options: OptionsView { rudp_bind: Some(v), ..o }, ..st };
                    assert(no_health_target(parse_from(a, ok, i + 2, s2), s2, a, i + 2));
                    let s2 = ParseState { options: OptionsView { command_route: v, ..o }, ..st };
                    assert(no_health_target(parse_from(a, ok, i + 2, s2), s2, a, i + 2));
                    let s2 = ParseState { options: OptionsView { odin_cultmesh_uri: Some(v), ..o }, ..st };
                    assert(no_health_target(parse_from(a, ok, i + 2, s2), s2, a, i + 2));
                    if let Some(n) = parse_u64_spec(v) {
                        let s3 = ParseState { options: OptionsView { interval_ms: n, ..o }, ..st };
                        assert(no_health_target(parse_from(a, ok, i + 2, s3), s3, a, i + 2));
                    }
                    let s4 = ParseState { health_daemon: Some(v), ..st };
                    assert(no_health_target(parse_from(a, ok, i + 2, s4), s4, a, i + 2));
                    let s5 = ParseState { health_contract: Some(v), ..st };
                    assert(no_health_target(parse_from(a, ok, i + 2, s5), s5, a, i + 2));
                }
            }
        }
    }
}

/// Sleipnir assumes no Idunn health target: a command line without
/// `--idunn-rudp-health` parses to settings that name none.
pub proof fn law_health_target_is_never_assumed(a: Seq<Seq<char>>, ok: Seq<bool>, trace: bool)
    requires
        forall|k: int| 0 <= k < a.len() ==> #[trigger] a[k] != "--idunn-rudp-health"@,
    ensures
        parse_spec(a, ok, trace) matches Ok(o) ==> o.idunn_rudp_health is None,
{
    lemma_no_health_target(a, ok, 0);
    let st = ParseState {
        options: default_options(trace),
        health_endpoint: None,
        health_daemon: None,
        health_contract: None,
    };
    assert(no_health_target(parse_from(a, ok, 0, st), st, a, 0));
}

} // verus!
