//! How Sleipnir announces itself: the provider advertisement it puts into
//! its CultMesh store and publishes to Odin, naming its service, verse,
//! capabilities, state store and command route, and the surface-state
//! record that carries its Eve/CultUI surface.
use vstd::prelude::*;
use crate::sleipnir::naming::{sleipnir_daemon_id, sleipnir_provider_id};
use crate::sleipnir::options::{Options, OptionsView};
use crate::sleipnir::surface::{
    sleipnir_surface, sleipnir_surface_document, DocumentView, SleipnirRuntimeState,
    SurfaceDocument,
};
use crate::text::{chars_of, push_str, string_of};

verus! {

/// The schema of the commands Sleipnir takes on its command route.
pub const SLEIPNIR_INPUT_MAPPING_SCHEMA: &'static str = "sleipnir.input_mapping.v1";

/// The uppercase form of a character, by Unicode's case tables (one to
/// three characters).
pub uninterp spec fn uppercase_text(c: char) -> Seq<char>;

/// `char::to_uppercase` on `c`, collected into a `String`; the result is
/// named `uppercase_text`, since the case tables take pages to state.
#[verifier::external_body]
fn char_uppercase(c: char) -> (r: String)
    ensures
        r@ == uppercase_text(c),
{
    c.to_uppercase().collect::<String>()
}

/// `s` with its first character in uppercase.
pub open spec fn title_case_text(s: Seq<char>) -> Seq<char> {
    if s.len() == 0 {
        Seq::empty()
    } else {
        uppercase_text(s[0]) + s.drop_first()
    }
}

/// `value` with its first character in uppercase.
pub fn title_case(value: &str) -> (r: String)
    ensures
        r@ == title_case_text(value@),
{
    let chars = chars_of(value);
    if chars.len() == 0 {
        return String::new();
    }
    let mut s = char_uppercase(chars[0]);
    let n = chars.len();
    let rest = string_of(&chars.as_slice()[1..n]);
    push_str(&mut s, rest.as_str());
    assert(chars@.subrange(1, chars@.len() as int) =~= value@.drop_first());
    s
}

/// The title Sleipnir's provider and surface are shown under.
pub open spec fn sleipnir_title(host_id: Seq<char>) -> Seq<char> {
    "Sleipnir "@ + title_case_text(host_id) + " Input Mirror"@
}

/// `Sleipnir <Host> Input Mirror`, the host's first letter in uppercase.
pub fn sleipnir_provider_title(host_id: &str) -> (r: String)
    ensures
        r@ == sleipnir_title(host_id@),
{
    let mut s = "Sleipnir ".to_string();
    let t = title_case(host_id);
    push_str(&mut s, t.as_str());
    push_str(&mut s, " Input Mirror");
    s
}

/// A route or endpoint a provider can be reached on. Only command routes
/// carry a resolver, schema, role and channel.
pub struct AdvertisedRoute {
    pub transport: String,
    pub address: String,
    pub resolver: Option<String>,
    pub schema: Option<String>,
    pub role: Option<String>,
    pub channel: Option<String>,
}

pub ghost struct RouteView {
    pub transport: Seq<char>,
    pub address: Seq<char>,
    pub resolver: Option<Seq<char>>,
    pub schema: Option<Seq<char>>,
    pub role: Option<Seq<char>>,
    pub channel: Option<Seq<char>>,
}

pub open spec fn text_opt(o: Option<String>) -> Option<Seq<char>> {
    match o {
        Some(s) => Some(s@),
        None => None,
    }
}

impl View for AdvertisedRoute {
    type V = RouteView;

    open spec fn view(&self) -> RouteView {
        RouteView {
            transport: self.transport@,
            address: self.address@,
            resolver: text_opt(self.resolver),
            schema: text_opt(self.schema),
            role: text_opt(self.role),
            channel: text_opt(self.channel),
        }
    }
}

pub open spec fn routes_view(v: Seq<AdvertisedRoute>) -> Seq<RouteView> {
    v.map_values(|r: AdvertisedRoute| r@)
}

pub open spec fn texts_view(v: Seq<String>) -> Seq<Seq<char>> {
    v.map_values(|s: String| s@)
}

/// A `gamecult.eve.provider_advertisement.v1` document.
pub struct ProviderAdvertisement {
    pub schema: String,
    pub provider_id: String,
    pub daemon_id: String,
    pub title: String,
    pub description: String,
    pub canonical_service: String,
    pub located_service: String,
    pub verse_id: String,
    pub cult_mesh_address: String,
    pub status: String,
    pub mode: String,
    pub updated_at: String,
    pub state_store: String,
    pub surface_id: String,
    pub capabilities: Vec<String>,
    pub endpoints: Vec<AdvertisedRoute>,
    pub routes: Vec<AdvertisedRoute>,
}

pub ghost struct AdvertisementView {
    pub schema: Seq<char>,
    pub provider_id: Seq<char>,
    pub daemon_id: Seq<char>,
    pub title: Seq<char>,
    pub description: Seq<char>,
    pub canonical_service: Seq<char>,
    pub located_service: Seq<char>,
    pub verse_id: Seq<char>,
    pub cult_mesh_address: Seq<char>,
    pub status: Seq<char>,
    pub mode: Seq<char>,
    pub updated_at: Seq<char>,
    pub state_store: Seq<char>,
    pub surface_id: Seq<char>,
    pub capabilities: Seq<Seq<char>>,
    pub endpoints: Seq<RouteView>,
    pub routes: Seq<RouteView>,
}

impl View for ProviderAdvertisement {
    type V = AdvertisementView;

    open spec fn view(&self) -> AdvertisementView {
        AdvertisementView {
            schema: self.schema@,
            provider_id: self.provider_id@,
            daemon_id: self.daemon_id@,
            title: self.title@,
            description: self.description@,
            canonical_service: self.canonical_service@,
            located_service: self.located_service@,
            verse_id: self.verse_id@,
            cult_mesh_address: self.cult_mesh_address@,
            status: self.status@,
            mode: self.mode@,
            updated_at: self.updated_at@,
            state_store: self.state_store@,
            surface_id: self.surface_id@,
            capabilities: texts_view(self.capabilities@),
            endpoints: routes_view(self.endpoints@),
            routes: routes_view(self.routes@),
        }
    }
}

/// The state store as a route: `cultcache-store` at the store's path.
pub open spec fn store_route(store: Seq<char>) -> RouteView {
    RouteView {
        transport: "cultcache-store"@,
        address: store,
        resolver: None,
        schema: None,
        role: None,
        channel: None,
    }
}

/// The route Sleipnir takes input-mapping commands on: RUDP, resolved
/// through Odin's CultMesh, carrying `sleipnir.input_mapping.v1`.
pub open spec fn command_route_view(address: Seq<char>) -> RouteView {
    RouteView {
        transport: "cultnet.transport.rudp.v0"@,
        address,
        resolver: Some("odin-cultmesh"@),
        schema: Some("sleipnir.input_mapping.v1"@),
        role: Some("sleipnir.input_mapping.command"@),
        channel: Some("schema"@),
    }
}

/// Sleipnir's provider advertisement for its options and runtime state:
/// who it is (provider, daemon, title, canonical and located service,
/// verse, CultMesh address), how it is doing (status, mode, update time),
/// where its state lives, what it can do, and where it takes commands
/// (the store route first, the command route last).
pub open spec fn sleipnir_advertisement(
    o: OptionsView,
    provider_id: Seq<char>,
    stream_state: Seq<char>,
    updated_at: Seq<char>,
) -> AdvertisementView {
    let host = o.host_id;
    AdvertisementView {
        schema: "gamecult.eve.provider_advertisement.v1"@,
        provider_id,
        daemon_id: host + "-sleipnir"@,
        title: sleipnir_title(host),
        description: "Sleipnir mirrors Muninn-discovered input streams into a local virtual HID backend."@,
        canonical_service: "asgard.sleipnir"@,
        located_service: "asgard."@ + host + ".sleipnir"@,
        verse_id: host + ".local"@,
        cult_mesh_address: "asgard."@ + host + ".sleipnir/input-mirror"@,
        status: stream_state,
        mode: "daemon-live"@,
        updated_at,
        state_store: o.store_path,
        surface_id: provider_id,
        capabilities: seq![
            "muninn.input.discovery"@,
            "cultmesh.input.stream.consumer"@,
            "virtual-hid.xinput"@,
        ],
        endpoints: seq![store_route(o.store_path)],
        routes: seq![store_route(o.store_path), command_route_view(o.command_route)],
    }
}

fn store_route_of(store: &str) -> (r: AdvertisedRoute)
    ensures
        r@ == store_route(store@),
{
    AdvertisedRoute {
        transport: "cultcache-store".to_string(),
        address: store.to_string(),
        resolver: None,
        schema: None,
        role: None,
        channel: None,
    }
}

fn join3(a: &str, b: &str, c: &str) -> (r: String)
    ensures
        r@ == a@ + b@ + c@,
{
    let mut s = a.to_string();
    push_str(&mut s, b);
    push_str(&mut s, c);
    s
}

/// Builds Sleipnir's provider advertisement, as it is put into the store
/// and published to Odin.
pub fn sleipnir_provider_advertisement(options: &Options, state: &SleipnirRuntimeState) -> (r:
    ProviderAdvertisement)
    ensures
        r@ == sleipnir_advertisement(
            options@,
            state.provider_id@,
            state.stream_state@,
            state.updated_at@,
        ),
{
    let host = options.host_id.as_str();
    let store = options.store_path.as_str();
    let mut capabilities: Vec<String> = Vec::new();
    capabilities.push("muninn.input.discovery".to_string());
    capabilities.push("cultmesh.input.stream.consumer".to_string());
    capabilities.push("virtual-hid.xinput".to_string());
    let mut endpoints: Vec<AdvertisedRoute> = Vec::new();
    endpoints.push(store_route_of(store));
    let mut routes: Vec<AdvertisedRoute> = Vec::new();
    routes.push(store_route_of(store));
    routes.push(
        AdvertisedRoute {
            transport: "cultnet.transport.rudp.v0".to_string(),
            address: options.command_route.clone(),
            resolver: Some("odin-cultmesh".to_string()),
            schema: Some(SLEIPNIR_INPUT_MAPPING_SCHEMA.to_string()),
            role: Some("sleipnir.input_mapping.command".to_string()),
            channel: Some("schema".to_string()),
        },
    );
    let mut verse_id = host.to_string();
    push_str(&mut verse_id, ".local");
    let r = ProviderAdvertisement {
        schema: "gamecult.eve.provider_advertisement.v1".to_string(),
        provider_id: state.provider_id.clone(),
        daemon_id: sleipnir_daemon_id(host),
        title: sleipnir_provider_title(host),
        description: "Sleipnir mirrors Muninn-discovered input streams into a local virtual HID backend.".to_string(),
        canonical_service: "asgard.sleipnir".to_string(),
        located_service: join3("asgard.", host, ".sleipnir"),
        verse_id,
        cult_mesh_address: join3("asgard.", host, ".sleipnir/input-mirror"),
        status: state.stream_state.clone(),
        mode: "daemon-live".to_string(),
        updated_at: state.updated_at.clone(),
        state_store: store.to_string(),
        surface_id: state.provider_id.clone(),
        capabilities,
        endpoints,
        routes,
    };
    assert(r@.capabilities =~= seq![
        "muninn.input.discovery"@,
        "cultmesh.input.stream.consumer"@,
        "virtual-hid.xinput"@,
    ]);
    assert(r@.endpoints =~= seq![store_route(store@)]);
    assert(r@.routes =~= seq![store_route(store@), command_route_view(options.command_route@)]);
    r
}

/// The record that carries Sleipnir's surface: its provider, title,
/// version, update time and surface document.
pub struct SurfaceStateRecord {
    pub provider_id: String,
    pub title: String,
    pub version: i64,
    pub updated_at: String,
    pub surface: SurfaceDocument,
}

pub ghost struct SurfaceStateView {
    pub provider_id: Seq<char>,
    pub title: Seq<char>,
    pub version: i64,
    pub updated_at: Seq<char>,
    pub surface: DocumentView,
}

impl View for SurfaceStateRecord {
    type V = SurfaceStateView;

    open spec fn view(&self) -> SurfaceStateView {
        SurfaceStateView {
            provider_id: self.provider_id@,
            title: self.title@,
            version: self.version,
            updated_at: self.updated_at@,
            surface: self.surface@,
        }
    }
}

/// The surface-state record put beside the advertisement; `version` is
/// the publishing time in milliseconds, which the caller reads.
pub fn sleipnir_surface_state(options: &Options, state: &SleipnirRuntimeState, version: i64) -> (r:
    SurfaceStateRecord)
    ensures
        r@ == (SurfaceStateView {
            provider_id: state.provider_id@,
            title: sleipnir_title(options.host_id@),
            version,
            updated_at: state.updated_at@,
            surface: sleipnir_surface(*state),
        }),
{
    SurfaceStateRecord {
        provider_id: state.provider_id.clone(),
        title: sleipnir_provider_title(options.host_id.as_str()),
        version,
        updated_at: state.updated_at.clone(),
        surface: sleipnir_surface_document(state),
    }
}

} // verus!
