//! Sleipnir's provider-owned Eve/CultUI surface: the dashboard that shows
//! the mirror's runtime, its input, the available HID devices, the remap
//! presets and the Xbox binding map. The surface is kept as the preorder
//! list of its elements, each with its depth in the tree.
use vstd::prelude::*;
use crate::sleipnir::devices::AvailableHidDevice;
use crate::sleipnir::health::{number_or_none, text_or};
use crate::sleipnir::mapping::{axis_binding_label, ButtonBinding};
use crate::sleipnir::naming::{stable_id, stable_id_text};
use crate::text::{decimal, push_decimal, push_decimal_u128, push_str, str_eq};

verus! {

/// A leaf value of an element's properties.
pub enum SurfaceScalar {
    Null,
    Text(String),
    Number(u64),
    Flag(bool),
    /// An object with no entries.
    EmptyObject,
}

pub ghost enum ScalarView {
    Null,
    Text(Seq<char>),
    Number(u64),
    Flag(bool),
    EmptyObject,
}

impl View for SurfaceScalar {
    type V = ScalarView;

    open spec fn view(&self) -> ScalarView {
        match self {
            SurfaceScalar::Null => ScalarView::Null,
            SurfaceScalar::Text(t) => ScalarView::Text(t@),
            SurfaceScalar::Number(n) => ScalarView::Number(*n),
            SurfaceScalar::Flag(b) => ScalarView::Flag(*b),
            SurfaceScalar::EmptyObject => ScalarView::EmptyObject,
        }
    }
}

pub open spec fn texts_view(v: Seq<String>) -> Seq<Seq<char>> {
    v.map_values(|s: String| s@)
}

/// One property of an element: the keys that lead to it inside the
/// element's `props`, outermost first, and its value.
pub struct SurfaceProp {
    pub path: Vec<String>,
    pub value: SurfaceScalar,
}

pub type PropView = (Seq<Seq<char>>, ScalarView);

impl View for SurfaceProp {
    type V = PropView;

    open spec fn view(&self) -> PropView {
        (texts_view(self.path@), self.value@)
    }
}

pub open spec fn props_view(v: Seq<SurfaceProp>) -> Seq<PropView> {
    v.map_values(|p: SurfaceProp| p@)
}

/// A document embedded in an element, opened in its own presentation.
pub struct EmbeddedDocument {
    pub slot_id: String,
    pub document_id: String,
    pub schema_id: String,
    pub presentation_kind: String,
}

pub type EmbeddedView = (Seq<char>, Seq<char>, Seq<char>, Seq<char>);

impl View for EmbeddedDocument {
    type V = EmbeddedView;

    open spec fn view(&self) -> EmbeddedView {
        (self.slot_id@, self.document_id@, self.schema_id@, self.presentation_kind@)
    }
}

/// One element of the surface tree. `depth` is 0 for the root and one more
/// than its parent's for every other element, whose parent is the nearest
/// element before it with a smaller depth. An element with `has_children`
/// lists its children (possibly none); the others carry an embedded
/// document instead.
pub struct SurfaceElement {
    pub depth: usize,
    pub id: String,
    pub kind: String,
    pub props: Vec<SurfaceProp>,
    pub has_children: bool,
    pub embedded_document: Option<EmbeddedDocument>,
}

pub ghost struct ElementView {
    pub depth: nat,
    pub id: Seq<char>,
    pub kind: Seq<char>,
    pub props: Seq<PropView>,
    pub has_children: bool,
    pub embedded_document: Option<EmbeddedView>,
}

impl View for SurfaceElement {
    type V = ElementView;

    open spec fn view(&self) -> ElementView {
        ElementView {
            depth: self.depth as nat,
            id: self.id@,
            kind: self.kind@,
            props: props_view(self.props@),
            has_children: self.has_children,
            embedded_document: match self.embedded_document {
                Some(d) => Some(d@),
                None => None,
            },
        }
    }
}

pub open spec fn elements_view(v: Seq<SurfaceElement>) -> Seq<ElementView> {
    v.map_values(|e: SurfaceElement| e@)
}

/// A whole surface document: its schema, id and title, and the elements
/// of its tree in preorder, the root first.
pub struct SurfaceDocument {
    pub schema: String,
    pub id: String,
    pub title: String,
    pub elements: Vec<SurfaceElement>,
}

pub ghost struct DocumentView {
    pub schema: Seq<char>,
    pub id: Seq<char>,
    pub title: Seq<char>,
    pub elements: Seq<ElementView>,
}

impl View for SurfaceDocument {
    type V = DocumentView;

    open spec fn view(&self) -> DocumentView {
        DocumentView {
            schema: self.schema@,
            id: self.id@,
            title: self.title@,
            elements: elements_view(self.elements@),
        }
    }
}

/// A latency trace of the last emitted input.
pub struct SleipnirInputLatencySnapshot {
    pub device_id: String,
    pub sequence: u64,
    pub source_to_arrival_ms: Option<i64>,
    pub arrival_to_buffer_ms: u128,
    pub buffer_to_axis_ms: u128,
    pub axis_to_hid_ms: u128,
    pub source_to_hid_ms: Option<i64>,
    pub total_observed_ms: u128,
    pub axis_summary: Vec<String>,
    pub emitted: bool,
}

/// A binding that Sleipnir is waiting to learn from the next input.
pub struct LearnRequest {
    pub target: String,
    pub binding_kind: String,
    pub requested_at: Option<String>,
}

/// Where an axis of the virtual pad reads from: a source axis, possibly
/// inverted.
pub struct AxisTarget {
    pub target: String,
    pub source: usize,
    pub invert: bool,
}

/// What the surface shows of Sleipnir's runtime.
pub struct SleipnirRuntimeState {
    pub provider_id: String,
    pub selected_muninn_endpoint: Option<String>,
    pub selected_device_filter: Option<String>,
    pub presentation: String,
    pub virtual_backend: String,
    pub stream_state: String,
    pub last_device_id: Option<String>,
    pub last_device_kind: Option<String>,
    pub last_sequence: Option<u64>,
    pub last_frame_age_ms: Option<u128>,
    pub last_input_latency: Option<SleipnirInputLatencySnapshot>,
    pub ignored_stream_frames: u64,
    pub available_devices: Vec<AvailableHidDevice>,
    pub axis_map: Vec<AxisTarget>,
    pub button_map: Vec<ButtonBinding>,
    pub pending_learn: Option<LearnRequest>,
    pub updated_at: String,
}

pub open spec fn opt_view(o: Option<String>) -> Option<Seq<char>> {
    match o {
        Some(s) => Some(s@),
        None => None,
    }
}

// ---------------------------------------------------------------------
// Building blocks
// ---------------------------------------------------------------------

pub open spec fn text_prop_view(key: Seq<char>, text: Seq<char>) -> PropView {
    (seq![key], ScalarView::Text(text))
}

pub open spec fn element_view(depth: nat, id: Seq<char>, kind: Seq<char>, props: Seq<PropView>) -> ElementView {
    ElementView { depth, id, kind, props, has_children: true, embedded_document: None }
}

/// A text element: `{id, kind: "text", props: {text}, children: []}`.
pub open spec fn text_view(depth: nat, id: Seq<char>, text: Seq<char>) -> ElementView {
    element_view(depth, id, "text"@, seq![text_prop_view("text"@, text)])
}

/// A property at `props.key`.
fn prop1(key: &str, value: SurfaceScalar) -> (r: SurfaceProp)
    ensures
        r@ == (seq![key@], value@),
{
    let mut path: Vec<String> = Vec::new();
    path.push(key.to_string());
    assert(texts_view(path@) =~= seq![key@]);
    SurfaceProp { path, value }
}

/// A property at `props.a.b`.
fn prop2(a: &str, b: &str, value: SurfaceScalar) -> (r: SurfaceProp)
    ensures
        r@ == (seq![a@, b@], value@),
{
    let mut path: Vec<String> = Vec::new();
    path.push(a.to_string());
    path.push(b.to_string());
    assert(texts_view(path@) =~= seq![a@, b@]);
    SurfaceProp { path, value }
}

/// A property at `props.a.b.c`.
fn prop3(a: &str, b: &str, c: &str, value: SurfaceScalar) -> (r: SurfaceProp)
    ensures
        r@ == (seq![a@, b@, c@], value@),
{
    let mut path: Vec<String> = Vec::new();
    path.push(a.to_string());
    path.push(b.to_string());
    path.push(c.to_string());
    assert(texts_view(path@) =~= seq![a@, b@, c@]);
    SurfaceProp { path, value }
}

/// A property at `props.a.b.c.d`.
fn prop4(a: &str, b: &str, c: &str, d: &str, value: SurfaceScalar) -> (r: SurfaceProp)
    ensures
        r@ == (seq![a@, b@, c@, d@], value@),
{
    let mut path: Vec<String> = Vec::new();
    path.push(a.to_string());
    path.push(b.to_string());
    path.push(c.to_string());
    path.push(d.to_string());
    assert(texts_view(path@) =~= seq![a@, b@, c@, d@]);
    SurfaceProp { path, value }
}

fn text_prop(key: &str, text: String) -> (r: SurfaceProp)
    ensures
        r@ == text_prop_view(key@, text@),
{
    prop1(key, SurfaceScalar::Text(text))
}

fn push_prop(v: &mut Vec<SurfaceProp>, p: SurfaceProp)
    ensures
        props_view(final(v)@) == props_view(old(v)@).push(p@),
{
    let ghost before = v@;
    v.push(p);
    assert(props_view(v@) =~= props_view(before).push(p@));
}

fn push_element(out: &mut Vec<SurfaceElement>, e: SurfaceElement)
    ensures
        elements_view(final(out)@) == elements_view(old(out)@).push(e@),
{
    let ghost before = out@;
    out.push(e);
    assert(elements_view(out@) =~= elements_view(before).push(e@));
}

fn element(depth: usize, id: String, kind: &str, props: Vec<SurfaceProp>) -> (r: SurfaceElement)
    ensures
        r@ == element_view(depth as nat, id@, kind@, props_view(props@)),
{
    SurfaceElement { depth, id, kind: kind.to_string(), props, has_children: true, embedded_document: None }
}

fn text_element(depth: usize, id: String, text: String) -> (r: SurfaceElement)
    ensures
        r@ == text_view(depth as nat, id@, text@),
{
    let mut props: Vec<SurfaceProp> = Vec::new();
    push_prop(&mut props, text_prop("text", text));
    assert(props_view(props@) =~= seq![text_prop_view("text"@, text@)]);
    element(depth, id, "text", props)
}

/// `a` followed by `b`.
fn concat(a: &str, b: &str) -> (r: String)
    ensures
        r@ == a@ + b@,
{
    let mut s = a.to_string();
    push_str(&mut s, b);
    s
}

/// The parts joined with `sep` between each two.
pub open spec fn joined(parts: Seq<Seq<char>>, sep: Seq<char>) -> Seq<char>
    decreases parts.len(),
{
    if parts.len() == 0 {
        Seq::empty()
    } else if parts.len() == 1 {
        parts[0]
    } else {
        joined(parts.drop_last(), sep) + sep + parts.last()
    }
}

/// `parts` joined with `sep`, as `[String]::join` writes it.
pub fn join_texts(parts: &Vec<String>, sep: &str) -> (r: String)
    ensures
        r@ == joined(texts_view(parts@), sep@),
{
    let mut s = String::new();
    let mut i: usize = 0;
    while i < parts.len()
        invariant
            i <= parts@.len(),
            s@ == joined(texts_view(parts@.subrange(0, i as int)), sep@),
        decreases parts@.len() - i,
    {
        let ghost before = texts_view(parts@.subrange(0, i as int));
        if i > 0 {
            push_str(&mut s, sep);
        }
        push_str(&mut s, parts[i].as_str());
        i = i + 1;
        proof {
            let now = texts_view(parts@.subrange(0, i as int));
            assert(now.drop_last() =~= before);
            assert(now.last() == parts@[i - 1]@);
            if i == 1 {
                assert(before.len() == 0);
            }
        }
    }
    assert(parts@.subrange(0, parts@.len() as int) =~= parts@);
    s
}

/// A signed decimal: a `-` before the magnitude of a negative number.
pub open spec fn signed_decimal(v: int) -> Seq<char> {
    if v < 0 {
        "-"@ + decimal((-v) as nat)
    } else {
        decimal(v as nat)
    }
}

fn push_signed_decimal(s: &mut String, v: i64)
    ensures
        final(s)@ == old(s)@ + signed_decimal(v as int),
{
    if v < 0 {
        push_str(s, "-");
        let m: u64 = (0i128 - (v as i128)) as u64;
        push_decimal(s, m);
    } else {
        push_decimal(s, v as u64);
    }
}

pub open spec fn flag_text(b: bool) -> Seq<char> {
    if b {
        "true"@
    } else {
        "false"@
    }
}

pub open spec fn u64_nat(o: Option<u64>) -> Option<nat> {
    match o {
        Some(n) => Some(n as nat),
        None => None,
    }
}

pub open spec fn u128_nat(o: Option<u128>) -> Option<nat> {
    match o {
        Some(n) => Some(n as nat),
        None => None,
    }
}

fn id_of(provider_id: &str, suffix: &str) -> (r: String)
    ensures
        r@ == provider_id@ + suffix@,
{
    concat(provider_id, suffix)
}

fn text_or_default(prefix: &str, o: &Option<String>, default: &str) -> (r: String)
    ensures
        r@ == prefix@ + text_or(opt_view(*o), default@),
{
    match o {
        Some(t) => concat(prefix, t.as_str()),
        None => concat(prefix, default),
    }
}

fn number_or_none_text(prefix: &str, o: Option<u128>) -> (r: String)
    ensures
        r@ == prefix@ + number_or_none(u128_nat(o)),
{
    let mut s = prefix.to_string();
    match o {
        Some(n) => push_decimal_u128(&mut s, n),
        None => push_str(&mut s, "none"),
    }
    s
}

// ---------------------------------------------------------------------
// The input, latency and axis panes
// ---------------------------------------------------------------------

/// The `Input` pane: the last device seen, its kind, sequence and frame
/// age, and how many stream frames were ignored.
#[verifier::opaque]
pub open spec fn input_pane(st: SleipnirRuntimeState) -> Seq<ElementView> {
    let p = st.provider_id@;
    seq![
        element_view(1, p + ".input"@, "pane"@, seq![text_prop_view("title"@, "Input"@)]),
        text_view(2, p + ".device"@, "device: "@ + text_or(opt_view(st.last_device_id), "none"@)),
        text_view(2, p + ".kind"@, "kind: "@ + text_or(opt_view(st.last_device_kind), "unknown"@)),
        text_view(2, p + ".sequence"@, "sequence: "@ + number_or_none(u64_nat(st.last_sequence))),
        text_view(
            2,
            p + ".age"@,
            "last frame age ms: "@ + number_or_none(u128_nat(st.last_frame_age_ms)),
        ),
        text_view(
            2,
            p + ".ignored"@,
            "ignored stream frames: "@ + decimal(st.ignored_stream_frames as nat),
        ),
    ]
}

fn push_input_pane(out: &mut Vec<SurfaceElement>, st: &SleipnirRuntimeState)
    ensures
        elements_view(final(out)@) == elements_view(old(out)@) + input_pane(*st),
{
    reveal(input_pane);
    let ghost before = elements_view(out@);
    let p = st.provider_id.as_str();
    let mut props: Vec<SurfaceProp> = Vec::new();
    push_prop(&mut props, text_prop("title", "Input".to_string()));
    assert(props_view(props@) =~= seq![text_prop_view("title"@, "Input"@)]);
    push_element(out, element(1, id_of(p, ".input"), "pane", props));
    push_element(out, text_element(2, id_of(p, ".device"), text_or_default("device: ", &st.last_device_id, "none")));
    push_element(out, text_element(2, id_of(p, ".kind"), text_or_default("kind: ", &st.last_device_kind, "unknown")));
    let seq_text = match st.last_sequence {
        Some(n) => number_or_none_text("sequence: ", Some(n as u128)),
        None => number_or_none_text("sequence: ", None),
    };
    push_element(out, text_element(2, id_of(p, ".sequence"), seq_text));
    push_element(out, text_element(2, id_of(p, ".age"), number_or_none_text("last frame age ms: ", st.last_frame_age_ms)));
    let mut ignored = "ignored stream frames: ".to_string();
    push_decimal(&mut ignored, st.ignored_stream_frames);
    push_element(out, text_element(2, id_of(p, ".ignored"), ignored));
    assert(elements_view(out@) =~= before + input_pane(*st));
}

/// The latency trace as text elements, or one element saying there is none.
pub open spec fn latency_elements(st: SleipnirRuntimeState) -> Seq<ElementView> {
    let p = st.provider_id@;
    match st.last_input_latency {
        None => seq![text_view(2, p + ".latency.empty"@, "no emitted input trace yet"@)],
        Some(t) => seq![
            text_view(
                2,
                p + ".latency.identity"@,
                "device: "@ + t.device_id@ + " seq="@ + decimal(t.sequence as nat) + " emitted="@
                    + flag_text(t.emitted),
            ),
            text_view(
                2,
                p + ".latency.source-arrival"@,
                "signal arrival: "@ + match t.source_to_arrival_ms {
                    Some(v) => "source to arrival "@ + signed_decimal(v as int) + " ms"@,
                    None => "source timestamp unavailable"@,
                },
            ),
            text_view(
                2,
                p + ".latency.buffer"@,
                "arrival to buffer: "@ + decimal(t.arrival_to_buffer_ms as nat) + " ms"@,
            ),
            text_view(
                2,
                p + ".latency.axis"@,
                "buffer to axis classification: "@ + decimal(t.buffer_to_axis_ms as nat) + " ms"@,
            ),
            text_view(
                2,
                p + ".latency.hid"@,
                "axis to HID emission: "@ + decimal(t.axis_to_hid_ms as nat) + " ms"@,
            ),
            text_view(
                2,
                p + ".latency.total"@,
                "observed mirror total: "@ + decimal(t.total_observed_ms as nat) + " ms"@
                    + match t.source_to_hid_ms {
                    Some(v) => " / source to HID "@ + signed_decimal(v as int) + " ms"@,
                    None => Seq::empty(),
                },
            ),
        ],
    }
}

fn millis_text(prefix: &str, n: u128) -> (r: String)
    ensures
        r@ == prefix@ + decimal(n as nat) + " ms"@,
{
    let mut s = prefix.to_string();
    push_decimal_u128(&mut s, n);
    push_str(&mut s, " ms");
    s
}

fn push_latency_elements(out: &mut Vec<SurfaceElement>, st: &SleipnirRuntimeState)
    ensures
        elements_view(final(out)@) == elements_view(old(out)@) + latency_elements(*st),
{
    let ghost before = elements_view(out@);
    let p = st.provider_id.as_str();
    match &st.last_input_latency {
        None => {
            push_element(out, text_element(2, id_of(p, ".latency.empty"), "no emitted input trace yet".to_string()));
            assert(elements_view(out@) =~= before + latency_elements(*st));
        },
        Some(t) => {
            let mut identity = "device: ".to_string();
            push_str(&mut identity, t.device_id.as_str());
            push_str(&mut identity, " seq=");
            push_decimal(&mut identity, t.sequence);
            push_str(&mut identity, " emitted=");
            push_str(&mut identity, if t.emitted { "true" } else { "false" });
            push_element(out, text_element(2, id_of(p, ".latency.identity"), identity));
            let mut arrival = "signal arrival: ".to_string();
            match t.source_to_arrival_ms {
                Some(v) => {
                    push_str(&mut arrival, "source to arrival ");
                    push_signed_decimal(&mut arrival, v);
                    push_str(&mut arrival, " ms");
                },
                None => push_str(&mut arrival, "source timestamp unavailable"),
            }
            push_element(out, text_element(2, id_of(p, ".latency.source-arrival"), arrival));
            push_element(out, text_element(2, id_of(p, ".latency.buffer"), millis_text("arrival to buffer: ", t.arrival_to_buffer_ms)));
            push_element(out, text_element(2, id_of(p, ".latency.axis"), millis_text("buffer to axis classification: ", t.buffer_to_axis_ms)));
            push_element(out, text_element(2, id_of(p, ".latency.hid"), millis_text("axis to HID emission: ", t.axis_to_hid_ms)));
            let mut total = millis_text("observed mirror total: ", t.total_observed_ms);
            match t.source_to_hid_ms {
                Some(v) => {
                    push_str(&mut total, " / source to HID ");
                    push_signed_decimal(&mut total, v);
                    push_str(&mut total, " ms");
                },
                None => {},
            }
            push_element(out, text_element(2, id_of(p, ".latency.total"), total));
            assert(identity@ == latency_elements(*st)[0].props[0].1->Text_0);
            assert(arrival@ == latency_elements(*st)[1].props[0].1->Text_0);
            assert(total@ == latency_elements(*st)[5].props[0].1->Text_0);
            assert(elements_view(out@) =~= before + latency_elements(*st));
        },
    }
}

/// The axes classified in the last trace, joined with `, `, or `none`.
pub open spec fn axis_summary_text(st: SleipnirRuntimeState) -> Seq<char> {
    match st.last_input_latency {
        Some(t) => {
            let j = joined(texts_view(t.axis_summary@), ", "@);
            if j.len() == 0 {
                "none"@
            } else {
                j
            }
        },
        None => "none"@,
    }
}

fn axis_summary(st: &SleipnirRuntimeState) -> (r: String)
    ensures
        r@ == axis_summary_text(*st),
{
    match &st.last_input_latency {
        Some(t) => {
            let j = join_texts(&t.axis_summary, ", ");
            if j.as_str().unicode_len() == 0 {
                "none".to_string()
            } else {
                j
            }
        },
        None => "none".to_string(),
    }
}

// ---------------------------------------------------------------------
// The runtime pane and the device cards
// ---------------------------------------------------------------------

pub open spec fn action_text_view(key: Seq<char>, text: Seq<char>) -> PropView {
    (seq!["action"@, key], ScalarView::Text(text))
}

/// Whether the device filter names the device, its kind or its stream.
pub open spec fn device_selected(st: SleipnirRuntimeState, d: AvailableHidDevice) -> bool {
    let f = opt_view(st.selected_device_filter);
    f == Some(d.device_id@) || f == Some(d.device_kind@) || f == Some(d.stream_id@)
}

/// A device's card and its four detail lines.
pub open spec fn device_card(st: SleipnirRuntimeState, d: AvailableHidDevice) -> Seq<ElementView> {
    let p = st.provider_id@;
    let base = p + ".device."@ + stable_id_text(d.device_id@);
    seq![
        element_view(
            3,
            base,
            "card"@,
            seq![
                text_prop_view(
                    "title"@,
                    (if device_selected(st, d) {
                        "selected"@
                    } else {
                        "available"@
                    }) + " "@ + d.device_id@,
                ),
                text_prop_view("commandId"@, "sleipnir.map-hid-device"@),
                action_text_view("type"@, "sleipnir.map-hid-device"@),
                action_text_view("providerId"@, p),
                action_text_view("deviceFilter"@, d.device_id@),
                action_text_view("streamId"@, d.stream_id@),
            ],
        ),
        text_view(4, base + ".kind"@, "kind: "@ + d.device_kind@),
        text_view(4, base + ".host"@, "host: "@ + d.host_id@),
        text_view(4, base + ".endpoint"@, "endpoint: "@ + d.endpoint@),
        text_view(4, base + ".path"@, "source: "@ + d.source_path@),
    ]
}

pub open spec fn device_cards(st: SleipnirRuntimeState, ds: Seq<AvailableHidDevice>) -> Seq<ElementView>
    decreases ds.len(),
{
    if ds.len() == 0 {
        Seq::empty()
    } else {
        device_cards(st, ds.drop_last()) + device_card(st, ds.last())
    }
}

/// The devices pane's children: a card per available device, or a line
/// saying none was discovered.
pub open spec fn device_elements(st: SleipnirRuntimeState) -> Seq<ElementView> {
    if st.available_devices@.len() == 0 {
        seq![
            text_view(
                3,
                st.provider_id@ + ".devices.empty"@,
                "no Muninn HID devices discovered"@,
            ),
        ]
    } else {
        device_cards(st, st.available_devices@)
    }
}

/// The `Runtime` pane: the card that stops input, the mirror's state,
/// backend, presentation, Muninn endpoint, device filter and update time,
/// and the pane of available devices.
#[verifier::opaque]
pub open spec fn runtime_head(st: SleipnirRuntimeState) -> Seq<ElementView> {
    let p = st.provider_id@;
    seq![
        element_view(1, p + ".runtime"@, "pane"@, seq![text_prop_view("title"@, "Runtime"@)]),
        element_view(
            2,
            p + ".disable"@,
            "card"@,
            seq![
                text_prop_view("title"@, "Stop consuming input"@),
                text_prop_view("commandId"@, "sleipnir.disable-input"@),
                action_text_view("type"@, "sleipnir.disable-input"@),
                action_text_view("providerId"@, p),
            ],
        ),
        text_view(2, p + ".state"@, "state: "@ + st.stream_state@),
        text_view(2, p + ".backend"@, "virtual backend: "@ + st.virtual_backend@),
        text_view(2, p + ".presentation"@, "presentation: "@ + st.presentation@),
        text_view(
            2,
            p + ".muninn"@,
            "muninn endpoint: "@ + text_or(opt_view(st.selected_muninn_endpoint), "discovering"@),
        ),
        text_view(
            2,
            p + ".filter"@,
            "device filter: "@ + text_or(opt_view(st.selected_device_filter), "any"@),
        ),
        text_view(2, p + ".updated"@, "updated: "@ + st.updated_at@),
        element_view(
            2,
            p + ".devices-inline"@,
            "pane"@,
            seq![
                text_prop_view("title"@, "Available HID Devices"@),
                text_prop_view("density"@, "compact"@),
            ],
        ),
    ]
}

#[verifier::opaque]
pub open spec fn runtime_pane(st: SleipnirRuntimeState) -> Seq<ElementView> {
    runtime_head(st) + device_elements(st)
}

fn opt_eq(o: &Option<String>, t: &String) -> (r: bool)
    ensures
        r == (opt_view(*o) == Some(t@)),
{
    match o {
        Some(s) => str_eq(s.as_str(), t.as_str()),
        None => false,
    }
}

fn action_text(key: &str, text: String) -> (r: SurfaceProp)
    ensures
        r@ == action_text_view(key@, text@),
{
    prop2("action", key, SurfaceScalar::Text(text))
}

fn push_device_card(out: &mut Vec<SurfaceElement>, st: &SleipnirRuntimeState, d: &AvailableHidDevice)
    ensures
        elements_view(final(out)@) == elements_view(old(out)@) + device_card(*st, *d),
{
    let ghost before = elements_view(out@);
    let p = st.provider_id.as_str();
    let selected = opt_eq(&st.selected_device_filter, &d.device_id) || opt_eq(
        &st.selected_device_filter,
        &d.device_kind,
    ) || opt_eq(&st.selected_device_filter, &d.stream_id);
    let sid = stable_id(d.device_id.as_str());
    let base = concat(id_of(p, ".device.").as_str(), sid.as_str());
    let mut title = (if selected {
        "selected"
    } else {
        "available"
    }).to_string();
    push_str(&mut title, " ");
    push_str(&mut title, d.device_id.as_str());
    let mut props: Vec<SurfaceProp> = Vec::new();
    push_prop(&mut props, text_prop("title", title));
    push_prop(&mut props, text_prop("commandId", "sleipnir.map-hid-device".to_string()));
    push_prop(&mut props, action_text("type", "sleipnir.map-hid-device".to_string()));
    push_prop(&mut props, action_text("providerId", p.to_string()));
    push_prop(&mut props, action_text("deviceFilter", d.device_id.clone()));
    push_prop(&mut props, action_text("streamId", d.stream_id.clone()));
    let ghost card = device_card(*st, *d);
    assert(props_view(props@) =~= card[0].props);
    push_element(out, element(3, base.clone(), "card", props));
    push_element(out, text_element(4, concat(base.as_str(), ".kind"), concat("kind: ", d.device_kind.as_str())));
    push_element(out, text_element(4, concat(base.as_str(), ".host"), concat("host: ", d.host_id.as_str())));
    push_element(out, text_element(4, concat(base.as_str(), ".endpoint"), concat("endpoint: ", d.endpoint.as_str())));
    push_element(out, text_element(4, concat(base.as_str(), ".path"), concat("source: ", d.source_path.as_str())));
    assert(elements_view(out@) =~= before + card);
}

fn push_runtime_pane(out: &mut Vec<SurfaceElement>, st: &SleipnirRuntimeState)
    ensures
        elements_view(final(out)@) == elements_view(old(out)@) + runtime_pane(*st),
{
    reveal(runtime_head);
    reveal(runtime_pane);
    let ghost before = elements_view(out@);
    let ghost pane = runtime_head(*st);
    let p = st.provider_id.as_str();
    let mut props: Vec<SurfaceProp> = Vec::new();
    push_prop(&mut props, text_prop("title", "Runtime".to_string()));
    assert(props_view(props@) =~= pane[0].props);
    push_element(out, element(1, id_of(p, ".runtime"), "pane", props));
    let mut props: Vec<SurfaceProp> = Vec::new();
    push_prop(&mut props, text_prop("title", "Stop consuming input".to_string()));
    push_prop(&mut props, text_prop("commandId", "sleipnir.disable-input".to_string()));
    push_prop(&mut props, action_text("type", "sleipnir.disable-input".to_string()));
    push_prop(&mut props, action_text("providerId", p.to_string()));
    assert(props_view(props@) =~= pane[1].props);
    push_element(out, element(2, id_of(p, ".disable"), "card", props));
    push_element(out, text_element(2, id_of(p, ".state"), concat("state: ", st.stream_state.as_str())));
    push_element(out, text_element(2, id_of(p, ".backend"), concat("virtual backend: ", st.virtual_backend.as_str())));
    push_element(out, text_element(2, id_of(p, ".presentation"), concat("presentation: ", st.presentation.as_str())));
    push_element(out, text_element(2, id_of(p, ".muninn"), text_or_default("muninn endpoint: ", &st.selected_muninn_endpoint, "discovering")));
    push_element(out, text_element(2, id_of(p, ".filter"), text_or_default("device filter: ", &st.selected_device_filter, "any")));
    push_element(out, text_element(2, id_of(p, ".updated"), concat("updated: ", st.updated_at.as_str())));
    let mut props: Vec<SurfaceProp> = Vec::new();
    push_prop(&mut props, text_prop("title", "Available HID Devices".to_string()));
    push_prop(&mut props, text_prop("density", "compact".to_string()));
    assert(props_view(props@) =~= pane[8].props);
    push_element(out, element(2, id_of(p, ".devices-inline"), "pane", props));
    let ghost head = elements_view(out@);
    assert(head =~= before + pane);
    let devices = &st.available_devices;
    if devices.len() == 0 {
        push_element(out, text_element(3, id_of(p, ".devices.empty"), "no Muninn HID devices discovered".to_string()));
    } else {
        let mut i: usize = 0;
        while i < devices.len()
            invariant
                i <= devices@.len(),
                devices == &st.available_devices,
                elements_view(out@) == head + device_cards(*st, devices@.subrange(0, i as int)),
            decreases devices@.len() - i,
        {
            push_device_card(out, st, &devices[i]);
            i = i + 1;
            assert(devices@.subrange(0, i as int).drop_last() =~= devices@.subrange(0, i - 1));
            assert(elements_view(out@) =~= head + device_cards(*st, devices@.subrange(0, i as int)));
        }
        assert(devices@.subrange(0, devices@.len() as int) =~= devices@);
    }
    assert(elements_view(out@) =~= before + (pane + device_elements(*st)));
}

// ---------------------------------------------------------------------
// Remap presets
// ---------------------------------------------------------------------

/// The device filter as a value: its text, or null when none is selected.
pub open spec fn filter_value(st: SleipnirRuntimeState) -> ScalarView {
    match opt_view(st.selected_device_filter) {
        Some(f) => ScalarView::Text(f),
        None => ScalarView::Null,
    }
}

pub open spec fn axis_source_view(axis: Seq<char>, source: u64) -> PropView {
    (seq!["action"@, "axisMap"@, axis, "source"@], ScalarView::Number(source))
}

pub open spec fn button_view(button: Seq<char>, target: Seq<char>) -> PropView {
    (seq!["action"@, "buttonMap"@, button], ScalarView::Text(target))
}

/// The button map of the `nav-to-xbox` preset.
pub open spec fn nav_button_props() -> Seq<PropView> {
    seq![
        button_view("cross"@, "a"@),
        button_view("circle"@, "b"@),
        button_view("square"@, "x"@),
        button_view("triangle"@, "y"@),
        button_view("select"@, "back"@),
        button_view("ps"@, "guide"@),
    ]
}

/// A preset card for the Xbox 360 presentation: both presets map left X
/// and Y (inverted) and the triggers from axes 0, 1, 2 and 5.
pub open spec fn preset_card(
    st: SleipnirRuntimeState,
    preset_id: Seq<char>,
    title: Seq<char>,
    buttons: Seq<PropView>,
) -> Seq<ElementView> {
    let p = st.provider_id@;
    seq![
        element_view(
            2,
            p + ".remap."@ + preset_id,
            "card"@,
            seq![
                text_prop_view("title"@, title),
                text_prop_view("commandId"@, "sleipnir.apply-remap-preset"@),
                action_text_view("type"@, "sleipnir.apply-remap-preset"@),
                action_text_view("providerId"@, p),
                (seq!["action"@, "deviceFilter"@], filter_value(st)),
                action_text_view("presentation"@, "xbox360"@),
                axis_source_view("leftX"@, 0),
                axis_source_view("leftY"@, 1),
                (seq!["action"@, "axisMap"@, "leftY"@, "invert"@], ScalarView::Flag(true)),
                axis_source_view("leftTrigger"@, 2),
                axis_source_view("rightTrigger"@, 5),
            ] + buttons,
        ),
        text_view(3, p + ".remap."@ + preset_id + ".detail"@, "presentation: xbox360"@),
    ]
}

/// The two remap presets: `Nav to Xbox` and `Invert Y` (no button map).
pub open spec fn remap_preset_cards_view(st: SleipnirRuntimeState) -> Seq<ElementView> {
    preset_card(st, "nav-to-xbox"@, "Nav to Xbox"@, nav_button_props()) + preset_card(
        st,
        "invert-y"@,
        "Invert Y"@,
        seq![(seq!["action"@, "buttonMap"@], ScalarView::EmptyObject)],
    )
}

fn filter_scalar(st: &SleipnirRuntimeState) -> (r: SurfaceScalar)
    ensures
        r@ == filter_value(*st),
{
    match &st.selected_device_filter {
        Some(f) => SurfaceScalar::Text(f.clone()),
        None => SurfaceScalar::Null,
    }
}

fn push_preset_card(out: &mut Vec<SurfaceElement>, st: &SleipnirRuntimeState, preset_id: &str, title: &str, nav: bool)
    ensures
        elements_view(final(out)@) == elements_view(old(out)@) + if nav {
            preset_card(*st, preset_id@, title@, nav_button_props())
        } else {
            preset_card(*st, preset_id@, title@, seq![(seq!["action"@, "buttonMap"@], ScalarView::EmptyObject)])
        },
{
    let ghost before = elements_view(out@);
    let ghost card = if nav {
        preset_card(*st, preset_id@, title@, nav_button_props())
    } else {
        preset_card(*st, preset_id@, title@, seq![(seq!["action"@, "buttonMap"@], ScalarView::EmptyObject)])
    };
    let p = st.provider_id.as_str();
    let base = concat(id_of(p, ".remap.").as_str(), preset_id);
    let mut props: Vec<SurfaceProp> = Vec::new();
    push_prop(&mut props, text_prop("title", title.to_string()));
    push_prop(&mut props, text_prop("commandId", "sleipnir.apply-remap-preset".to_string()));
    push_prop(&mut props, action_text("type", "sleipnir.apply-remap-preset".to_string()));
    push_prop(&mut props, action_text("providerId", p.to_string()));
    push_prop(&mut props, prop2("action", "deviceFilter", filter_scalar(st)));
    push_prop(&mut props, action_text("presentation", "xbox360".to_string()));
    push_prop(&mut props, prop4("action", "axisMap", "leftX", "source", SurfaceScalar::Number(0)));
    push_prop(&mut props, prop4("action", "axisMap", "leftY", "source", SurfaceScalar::Number(1)));
    push_prop(&mut props, prop4("action", "axisMap", "leftY", "invert", SurfaceScalar::Flag(true)));
    push_prop(&mut props, prop4("action", "axisMap", "leftTrigger", "source", SurfaceScalar::Number(2)));
    push_prop(&mut props, prop4("action", "axisMap", "rightTrigger", "source", SurfaceScalar::Number(5)));
    if nav {
        push_prop(&mut props, prop3("action", "buttonMap", "cross", SurfaceScalar::Text("a".to_string())));
        push_prop(&mut props, prop3("action", "buttonMap", "circle", SurfaceScalar::Text("b".to_string())));
        push_prop(&mut props, prop3("action", "buttonMap", "square", SurfaceScalar::Text("x".to_string())));
        push_prop(&mut props, prop3("action", "buttonMap", "triangle", SurfaceScalar::Text("y".to_string())));
        push_prop(&mut props, prop3("action", "buttonMap", "select", SurfaceScalar::Text("back".to_string())));
        push_prop(&mut props, prop3("action", "buttonMap", "ps", SurfaceScalar::Text("guide".to_string())));
    } else {
        push_prop(&mut props, prop2("action", "buttonMap", SurfaceScalar::EmptyObject));
    }
    assert(props_view(props@) =~= card[0].props);
    push_element(out, element(2, base.clone(), "card", props));
    push_element(out, text_element(3, concat(base.as_str(), ".detail"), "presentation: xbox360".to_string()));
    assert(elements_view(out@) =~= before + card);
}

/// The cards of the remap presets, as they stand in the `Remapping
/// Presets` pane.
pub fn remap_preset_cards(state: &SleipnirRuntimeState) -> (r: Vec<SurfaceElement>)
    ensures
        elements_view(r@) == remap_preset_cards_view(*state),
{
    let mut out: Vec<SurfaceElement> = Vec::new();
    push_preset_card(&mut out, state, "nav-to-xbox", "Nav to Xbox", true);
    push_preset_card(&mut out, state, "invert-y", "Invert Y", false);
    assert(elements_view(out@) =~= remap_preset_cards_view(*state));
    out
}

// ---------------------------------------------------------------------
// The Xbox binding map
// ---------------------------------------------------------------------

/// Where a binding target sits on the controller picture, and what it
/// shows when nothing is bound to it.
pub struct BindingSlot {
    pub target: &'static str,
    pub binding_kind: &'static str,
    pub label: &'static str,
    pub fallback: &'static str,
    pub x: &'static str,
    pub y: &'static str,
    pub anchor_x: &'static str,
    pub anchor_y: &'static str,
}

pub ghost struct SlotView {
    pub target: Seq<char>,
    pub binding_kind: Seq<char>,
    pub label: Seq<char>,
    pub fallback: Seq<char>,
    pub x: Seq<char>,
    pub y: Seq<char>,
    pub anchor_x: Seq<char>,
    pub anchor_y: Seq<char>,
}

impl View for BindingSlot {
    type V = SlotView;

    open spec fn view(&self) -> SlotView {
        SlotView {
            target: self.target@,
            binding_kind: self.binding_kind@,
            label: self.label@,
            fallback: self.fallback@,
            x: self.x@,
            y: self.y@,
            anchor_x: self.anchor_x@,
            anchor_y: self.anchor_y@,
        }
    }
}

pub open spec fn slot_view(
    target: Seq<char>,
    binding_kind: Seq<char>,
    label: Seq<char>,
    fallback: Seq<char>,
    x: Seq<char>,
    y: Seq<char>,
    anchor_x: Seq<char>,
    anchor_y: Seq<char>,
) -> SlotView {
    SlotView { target, binding_kind, label, fallback, x, y, anchor_x, anchor_y }
}

/// The Xbox controller's axes and buttons, in the order the map lists them.
pub open spec fn xbox_slots() -> Seq<SlotView> {
    seq![
        slot_view("leftX"@, "axis"@, "Left X"@, "axis 0"@, "16%"@, "34%"@, "265"@, "224"@),
        slot_view("leftY"@, "axis"@, "Left Y"@, "axis 1"@, "16%"@, "49%"@, "265"@, "224"@),
        slot_view("leftTrigger"@, "axis"@, "LT"@, "axis 2"@, "20%"@, "12%"@, "253"@, "68"@),
        slot_view("rightTrigger"@, "axis"@, "RT"@, "axis 5"@, "80%"@, "12%"@, "527"@, "68"@),
        slot_view("a"@, "button"@, "A"@, "unmapped"@, "88%"@, "72%"@, "568"@, "244"@),
        slot_view("b"@, "button"@, "B"@, "unmapped"@, "92%"@, "58%"@, "608"@, "204"@),
        slot_view("x"@, "button"@, "X"@, "unmapped"@, "80%"@, "58%"@, "528"@, "204"@),
        slot_view("y"@, "button"@, "Y"@, "unmapped"@, "84%"@, "44%"@, "568"@, "164"@),
        slot_view("lb"@, "button"@, "LB"@, "unmapped"@, "22%"@, "22%"@, "253"@, "108"@),
        slot_view("rb"@, "button"@, "RB"@, "unmapped"@, "78%"@, "22%"@, "527"@, "108"@),
        slot_view("back"@, "button"@, "Back"@, "unmapped"@, "40%"@, "43%"@, "363"@, "197"@),
        slot_view("start"@, "button"@, "Start"@, "unmapped"@, "60%"@, "43%"@, "419"@, "197"@),
        slot_view("guide"@, "button"@, "Guide"@, "unmapped"@, "50%"@, "36%"@, "391"@, "224"@),
        slot_view("l3"@, "button"@, "L3"@, "unmapped"@, "30%"@, "76%"@, "265"@, "224"@),
        slot_view("r3"@, "button"@, "R3"@, "unmapped"@, "70%"@, "76%"@, "474"@, "256"@),
        slot_view("up"@, "button"@, "D-Up"@, "unmapped"@, "12%"@, "64%"@, "245"@, "224"@),
        slot_view("down"@, "button"@, "D-Down"@, "unmapped"@, "12%"@, "78%"@, "245"@, "306"@),
        slot_view("left"@, "button"@, "D-Left"@, "unmapped"@, "12%"@, "71%"@, "204"@, "267"@),
        slot_view("right"@, "button"@, "D-Right"@, "unmapped"@, "26%"@, "71%"@, "286"@, "267"@),
    ]
}

pub open spec fn slots_view(v: Seq<BindingSlot>) -> Seq<SlotView> {
    v.map_values(|s: BindingSlot| s@)
}

fn push_slot(v: &mut Vec<BindingSlot>, s: BindingSlot)
    ensures
        slots_view(final(v)@) == slots_view(old(v)@).push(s@),
{
    let ghost before = v@;
    v.push(s);
    assert(slots_view(v@) =~= slots_view(before).push(s@));
}

fn xbox_binding_slots() -> (r: Vec<BindingSlot>)
    ensures
        slots_view(r@) == xbox_slots(),
{
    let mut v: Vec<BindingSlot> = Vec::new();
    push_slot(&mut v, BindingSlot { target: "leftX", binding_kind: "axis", label: "Left X", fallback: "axis 0", x: "16%", y: "34%", anchor_x: "265", anchor_y: "224" });
    push_slot(&mut v, BindingSlot { target: "leftY", binding_kind: "axis", label: "Left Y", fallback: "axis 1", x: "16%", y: "49%", anchor_x: "265", anchor_y: "224" });
    push_slot(&mut v, BindingSlot { target: "leftTrigger", binding_kind: "axis", label: "LT", fallback: "axis 2", x: "20%", y: "12%", anchor_x: "253", anchor_y: "68" });
    push_slot(&mut v, BindingSlot { target: "rightTrigger", binding_kind: "axis", label: "RT", fallback: "axis 5", x: "80%", y: "12%", anchor_x: "527", anchor_y: "68" });
    push_slot(&mut v, BindingSlot { target: "a", binding_kind: "button", label: "A", fallback: "unmapped", x: "88%", y: "72%", anchor_x: "568", anchor_y: "244" });
    push_slot(&mut v, BindingSlot { target: "b", binding_kind: "button", label: "B", fallback: "unmapped", x: "92%", y: "58%", anchor_x: "608", anchor_y: "204" });
    push_slot(&mut v, BindingSlot { target: "x", binding_kind: "button", label: "X", fallback: "unmapped", x: "80%", y: "58%", anchor_x: "528", anchor_y: "204" });
    push_slot(&mut v, BindingSlot { target: "y", binding_kind: "button", label: "Y", fallback: "unmapped", x: "84%", y: "44%", anchor_x: "568", anchor_y: "164" });
    push_slot(&mut v, BindingSlot { target: "lb", binding_kind: "button", label: "LB", fallback: "unmapped", x: "22%", y: "22%", anchor_x: "253", anchor_y: "108" });
    push_slot(&mut v, BindingSlot { target: "rb", binding_kind: "button", label: "RB", fallback: "unmapped", x: "78%", y: "22%", anchor_x: "527", anchor_y: "108" });
    push_slot(&mut v, BindingSlot { target: "back", binding_kind: "button", label: "Back", fallback: "unmapped", x: "40%", y: "43%", anchor_x: "363", anchor_y: "197" });
    push_slot(&mut v, BindingSlot { target: "start", binding_kind: "button", label: "Start", fallback: "unmapped", x: "60%", y: "43%", anchor_x: "419", anchor_y: "197" });
    push_slot(&mut v, BindingSlot { target: "guide", binding_kind: "button", label: "Guide", fallback: "unmapped", x: "50%", y: "36%", anchor_x: "391", anchor_y: "224" });
    push_slot(&mut v, BindingSlot { target: "l3", binding_kind: "button", label: "L3", fallback: "unmapped", x: "30%", y: "76%", anchor_x: "265", anchor_y: "224" });
    push_slot(&mut v, BindingSlot { target: "r3", binding_kind: "button", label: "R3", fallback: "unmapped", x: "70%", y: "76%", anchor_x: "474", anchor_y: "256" });
    push_slot(&mut v, BindingSlot { target: "up", binding_kind: "button", label: "D-Up", fallback: "unmapped", x: "12%", y: "64%", anchor_x: "245", anchor_y: "224" });
    push_slot(&mut v, BindingSlot { target: "down", binding_kind: "button", label: "D-Down", fallback: "unmapped", x: "12%", y: "78%", anchor_x: "245", anchor_y: "306" });
    push_slot(&mut v, BindingSlot { target: "left", binding_kind: "button", label: "D-Left", fallback: "unmapped", x: "12%", y: "71%", anchor_x: "204", anchor_y: "267" });
    push_slot(&mut v, BindingSlot { target: "right", binding_kind: "button", label: "D-Right", fallback: "unmapped", x: "26%", y: "71%", anchor_x: "286", anchor_y: "267" });
    assert(slots_view(v@) =~= xbox_slots());
    v
}

/// The binding of an axis target: the first entry of the axis map for it.
pub open spec fn axis_binding_of(m: Seq<AxisTarget>, target: Seq<char>) -> Option<(usize, bool)>
    decreases m.len(),
{
    if m.len() == 0 {
        None
    } else if m[0].target@ == target {
        Some((m[0].source, m[0].invert))
    } else {
        axis_binding_of(m.drop_first(), target)
    }
}

/// The sources bound to a button target, in the map's order.
pub open spec fn button_sources(m: Seq<ButtonBinding>, target: Seq<char>) -> Seq<Seq<char>>
    decreases m.len(),
{
    if m.len() == 0 {
        Seq::empty()
    } else {
        let rest = button_sources(m.drop_last(), target);
        if m.last().target@ == target {
            rest.push(m.last().source@)
        } else {
            rest
        }
    }
}

pub open spec fn axis_label_text(b: Option<(usize, bool)>) -> Seq<char> {
    match b {
        Some((source, invert)) => "axis "@ + decimal(source as nat) + if invert {
            " inverted"@
        } else {
            Seq::empty()
        },
        None => "unmapped"@,
    }
}

/// What a target is bound to: an axis target's axis binding; a button
/// target's sources joined with `, `, or the slot's fallback when none is.
pub open spec fn binding_summary_text(st: SleipnirRuntimeState, s: SlotView) -> Seq<char> {
    if s.binding_kind == "axis"@ {
        axis_label_text(axis_binding_of(st.axis_map@, s.target))
    } else {
        let sources = button_sources(st.button_map@, s.target);
        if sources.len() == 0 {
            s.fallback
        } else {
            joined(sources, ", "@)
        }
    }
}

/// Whether Sleipnir is waiting to learn this target's binding.
pub open spec fn listening(st: SleipnirRuntimeState, s: SlotView) -> bool {
    st.pending_learn matches Some(l) && l.target@ == s.target && l.binding_kind@ == s.binding_kind
}

/// A binding target on the controller picture, with the binding modal it
/// opens embedded.
pub open spec fn binding_target_view(st: SleipnirRuntimeState, s: SlotView) -> ElementView {
    let p = st.provider_id@;
    let document_id = "cultmesh://sleipnir/"@ + p + "/binding/"@ + s.target;
    let slot_id = "sleipnir.binding."@ + s.target;
    ElementView {
        depth: 3,
        id: p + ".binding."@ + stable_id_text(s.target),
        kind: "binding.target"@,
        props: seq![
            text_prop_view("target"@, s.target),
            text_prop_view("bindingKind"@, s.binding_kind),
            text_prop_view("label"@, s.label),
            text_prop_view(
                "current"@,
                if listening(st, s) {
                    "listening..."@
                } else {
                    binding_summary_text(st, s)
                },
            ),
            text_prop_view("x"@, s.x),
            text_prop_view("y"@, s.y),
            text_prop_view("anchorX"@, s.anchor_x),
            text_prop_view("anchorY"@, s.anchor_y),
            text_prop_view("documentId"@, document_id),
            text_prop_view("slotId"@, slot_id),
            text_prop_view("schemaId"@, "gamecult.eve.surface.v1"@),
            text_prop_view("presentationKind"@, "modal.binding"@),
            (seq!["deviceFilter"@], filter_value(st)),
            text_prop_view("presentation"@, "xbox360"@),
        ],
        has_children: false,
        embedded_document: Some((slot_id, document_id, "gamecult.eve.surface.v1"@, "modal.binding"@)),
    }
}

pub open spec fn binding_targets(st: SleipnirRuntimeState, slots: Seq<SlotView>) -> Seq<ElementView> {
    slots.map_values(|s: SlotView| binding_target_view(st, s))
}

/// The binding map: the map element and a target per Xbox axis and button.
pub open spec fn xbox_binding_map_view(st: SleipnirRuntimeState) -> Seq<ElementView> {
    seq![
        element_view(
            2,
            st.provider_id@ + ".binding-map"@,
            "input.binding-map"@,
            seq![text_prop_view("label"@, "Xbox controller remapping"@)],
        ),
    ] + binding_targets(st, xbox_slots())
}

fn axis_binding(m: &Vec<AxisTarget>, target: &str) -> (r: Option<(usize, bool)>)
    ensures
        r == axis_binding_of(m@, target@),
{
    let mut i: usize = 0;
    assert(m@.subrange(0, m@.len() as int) =~= m@);
    while i < m.len()
        invariant
            i <= m@.len(),
            axis_binding_of(m@, target@) == axis_binding_of(m@.subrange(i as int, m@.len() as int), target@),
        decreases m@.len() - i,
    {
        assert(m@.subrange(i as int, m@.len() as int).drop_first() =~= m@.subrange(i + 1, m@.len() as int));
        if str_eq(m[i].target.as_str(), target) {
            return Some((m[i].source, m[i].invert));
        }
        i = i + 1;
    }
    None
}

fn binding_sources(m: &Vec<ButtonBinding>, target: &str) -> (r: Vec<String>)
    ensures
        texts_view(r@) == button_sources(m@, target@),
{
    let mut out: Vec<String> = Vec::new();
    let mut i: usize = 0;
    while i < m.len()
        invariant
            i <= m@.len(),
            texts_view(out@) == button_sources(m@.subrange(0, i as int), target@),
        decreases m@.len() - i,
    {
        let ghost before = out@;
        if str_eq(m[i].target.as_str(), target) {
            out.push(m[i].source.clone());
            assert(texts_view(out@) =~= texts_view(before).push(m@[i as int].source@));
        }
        i = i + 1;
        assert(m@.subrange(0, i as int).drop_last() =~= m@.subrange(0, i - 1));
    }
    assert(m@.subrange(0, m@.len() as int) =~= m@);
    out
}

fn binding_summary(st: &SleipnirRuntimeState, s: &BindingSlot) -> (r: String)
    ensures
        r@ == binding_summary_text(*st, s@),
{
    if str_eq(s.binding_kind, "axis") {
        axis_binding_label(axis_binding(&st.axis_map, s.target))
    } else {
        let sources = binding_sources(&st.button_map, s.target);
        if sources.len() == 0 {
            s.fallback.to_string()
        } else {
            join_texts(&sources, ", ")
        }
    }
}

fn binding_target(st: &SleipnirRuntimeState, s: &BindingSlot) -> (r: SurfaceElement)
    ensures
        r@ == binding_target_view(*st, s@),
{
    let p = st.provider_id.as_str();
    let is_listening = match &st.pending_learn {
        Some(l) => str_eq(l.target.as_str(), s.target) && str_eq(l.binding_kind.as_str(), s.binding_kind),
        None => false,
    };
    let current = if is_listening {
        "listening...".to_string()
    } else {
        binding_summary(st, s)
    };
    let mut document_id = "cultmesh://sleipnir/".to_string();
    push_str(&mut document_id, p);
    push_str(&mut document_id, "/binding/");
    push_str(&mut document_id, s.target);
    let slot_id = concat("sleipnir.binding.", s.target);
    let mut props: Vec<SurfaceProp> = Vec::new();
    push_prop(&mut props, text_prop("target", s.target.to_string()));
    push_prop(&mut props, text_prop("bindingKind", s.binding_kind.to_string()));
    push_prop(&mut props, text_prop("label", s.label.to_string()));
    push_prop(&mut props, text_prop("current", current));
    push_prop(&mut props, text_prop("x", s.x.to_string()));
    push_prop(&mut props, text_prop("y", s.y.to_string()));
    push_prop(&mut props, text_prop("anchorX", s.anchor_x.to_string()));
    push_prop(&mut props, text_prop("anchorY", s.anchor_y.to_string()));
    push_prop(&mut props, text_prop("documentId", document_id.clone()));
    push_prop(&mut props, text_prop("slotId", slot_id.clone()));
    push_prop(&mut props, text_prop("schemaId", "gamecult.eve.surface.v1".to_string()));
    push_prop(&mut props, text_prop("presentationKind", "modal.binding".to_string()));
    push_prop(&mut props, prop1("deviceFilter", filter_scalar(st)));
    push_prop(&mut props, text_prop("presentation", "xbox360".to_string()));
    let ghost expected = binding_target_view(*st, s@);
    assert(props_view(props@) =~= expected.props);
    let sid = stable_id(s.target);
    SurfaceElement {
        depth: 3,
        id: concat(id_of(p, ".binding.").as_str(), sid.as_str()),
        kind: "binding.target".to_string(),
        props,
        has_children: false,
        embedded_document: Some(
            EmbeddedDocument {
                slot_id,
                document_id,
                schema_id: "gamecult.eve.surface.v1".to_string(),
                presentation_kind: "modal.binding".to_string(),
            },
        ),
    }
}

/// The Xbox binding map as it stands in its pane: the map element, then a
/// target per axis and button, each showing its binding, or `listening...`
/// while Sleipnir waits to learn it.
pub fn xbox_binding_map(state: &SleipnirRuntimeState) -> (r: Vec<SurfaceElement>)
    ensures
        elements_view(r@) == xbox_binding_map_view(*state),
{
    let mut out: Vec<SurfaceElement> = Vec::new();
    let mut props: Vec<SurfaceProp> = Vec::new();
    push_prop(&mut props, text_prop("label", "Xbox controller remapping".to_string()));
    assert(props_view(props@) =~= seq![text_prop_view("label"@, "Xbox controller remapping"@)]);
    push_element(&mut out, element(2, id_of(state.provider_id.as_str(), ".binding-map"), "input.binding-map", props));
    let ghost head = elements_view(out@);
    let slots = xbox_binding_slots();
    let mut i: usize = 0;
    while i < slots.len()
        invariant
            i <= slots@.len(),
            slots_view(slots@) == xbox_slots(),
            elements_view(out@) == head + binding_targets(*state, slots_view(slots@).subrange(0, i as int)),
        decreases slots@.len() - i,
    {
        let e = binding_target(state, &slots[i]);
        push_element(&mut out, e);
        i = i + 1;
        assert(binding_targets(*state, slots_view(slots@).subrange(0, i as int)) =~= binding_targets(
            *state,
            slots_view(slots@).subrange(0, i - 1),
        ).push(binding_target_view(*state, slots@[i - 1]@)));
    }
    assert(slots_view(slots@).subrange(0, slots@.len() as int) =~= xbox_slots());
    assert(elements_view(out@) =~= xbox_binding_map_view(*state));
    out
}

// ---------------------------------------------------------------------
// The whole surface
// ---------------------------------------------------------------------

pub open spec fn pane_view(id: Seq<char>, title: Seq<char>) -> ElementView {
    element_view(1, id, "pane"@, seq![text_prop_view("title"@, title)])
}

/// The dashboard at the root of the surface.
#[verifier::opaque]
pub open spec fn root_view(st: SleipnirRuntimeState) -> ElementView {
    element_view(
        0,
        st.provider_id@ + ".root"@,
        "dashboard"@,
        seq![
            text_prop_view("title"@, "Sleipnir Input Mirror"@),
            text_prop_view("summary"@, st.stream_state@ + " via "@ + st.virtual_backend@),
        ],
    )
}

/// The `Input Latency` pane and its lines.
#[verifier::opaque]
pub open spec fn latency_pane(st: SleipnirRuntimeState) -> Seq<ElementView> {
    seq![pane_view(st.provider_id@ + ".latency"@, "Input Latency"@)] + latency_elements(st)
}

/// The `Axis Classification` pane and its summary line.
#[verifier::opaque]
pub open spec fn axis_pane(st: SleipnirRuntimeState) -> Seq<ElementView> {
    seq![
        pane_view(st.provider_id@ + ".axis"@, "Axis Classification"@),
        text_view(2, st.provider_id@ + ".axis.summary"@, "mapped axes: "@ + axis_summary_text(st)),
    ]
}

/// The `Remapping Presets` pane and its cards.
#[verifier::opaque]
pub open spec fn remap_pane(st: SleipnirRuntimeState) -> Seq<ElementView> {
    seq![pane_view(st.provider_id@ + ".remap"@, "Remapping Presets"@)] + remap_preset_cards_view(st)
}

/// The wide `Xbox Controller Mapping` pane and the binding map in it.
#[verifier::opaque]
pub open spec fn binding_map_pane(st: SleipnirRuntimeState) -> Seq<ElementView> {
    seq![
        element_view(
            1,
            st.provider_id@ + ".binding-map-pane"@,
            "pane"@,
            seq![text_prop_view("title"@, "Xbox Controller Mapping"@), text_prop_view("span"@, "wide"@)],
        ),
    ] + xbox_binding_map_view(st)
}

/// The surface's elements: the dashboard, then its panes in turn
/// (runtime, input, latency, axis classification, remap presets and the
/// Xbox controller mapping), each followed by what it holds.
pub open spec fn surface_elements(st: SleipnirRuntimeState) -> Seq<ElementView> {
    seq![root_view(st)] + runtime_pane(st) + input_pane(st) + latency_pane(st) + axis_pane(st)
        + remap_pane(st) + binding_map_pane(st)
}

/// Sleipnir's surface document for a runtime state.
pub open spec fn sleipnir_surface(st: SleipnirRuntimeState) -> DocumentView {
    DocumentView {
        schema: "gamecult.eve.surface.v1"@,
        id: st.provider_id@ + ".surface"@,
        title: "Sleipnir Input Mirror"@,
        elements: surface_elements(st),
    }
}

fn pane(id: String, title: &str) -> (r: SurfaceElement)
    ensures
        r@ == pane_view(id@, title@),
{
    let mut props: Vec<SurfaceProp> = Vec::new();
    push_prop(&mut props, text_prop("title", title.to_string()));
    assert(props_view(props@) =~= seq![text_prop_view("title"@, title@)]);
    element(1, id, "pane", props)
}

fn append_elements(out: &mut Vec<SurfaceElement>, more: Vec<SurfaceElement>)
    ensures
        elements_view(final(out)@) == elements_view(old(out)@) + elements_view(more@),
{
    let ghost before = out@;
    let ghost added = more@;
    let mut more = more;
    out.append(&mut more);
    assert(elements_view(out@) =~= elements_view(before) + elements_view(added));
}

/// Builds Sleipnir's Eve/CultUI surface from its runtime state: the
/// dashboard with its runtime, input, latency, axis, remap and binding
/// panes, device cards marked selected or available, and every id taken
/// from the provider id.
pub fn sleipnir_surface_document(state: &SleipnirRuntimeState) -> (r: SurfaceDocument)
    ensures
        r@ == sleipnir_surface(*state),
{
    let p = state.provider_id.as_str();
    let mut out: Vec<SurfaceElement> = Vec::new();
    let mut props: Vec<SurfaceProp> = Vec::new();
    push_prop(&mut props, text_prop("title", "Sleipnir Input Mirror".to_string()));
    let mut summary = state.stream_state.clone();
    push_str(&mut summary, " via ");
    push_str(&mut summary, state.virtual_backend.as_str());
    push_prop(&mut props, text_prop("summary", summary));
    let ghost all = surface_elements(*state);
    proof {
        reveal(root_view);
        reveal(latency_pane);
        reveal(axis_pane);
        reveal(remap_pane);
        reveal(binding_map_pane);
    }
    assert(props_view(props@) =~= root_view(*state).props);
    push_element(&mut out, element(0, id_of(p, ".root"), "dashboard", props));
    push_runtime_pane(&mut out, state);
    push_input_pane(&mut out, state);
    push_element(&mut out, pane(id_of(p, ".latency"), "Input Latency"));
    push_latency_elements(&mut out, state);
    push_element(&mut out, pane(id_of(p, ".axis"), "Axis Classification"));
    push_element(&mut out, text_element(2, id_of(p, ".axis.summary"), concat("mapped axes: ", axis_summary(state).as_str())));
    push_element(&mut out, pane(id_of(p, ".remap"), "Remapping Presets"));
    append_elements(&mut out, remap_preset_cards(state));
    let mut props: Vec<SurfaceProp> = Vec::new();
    push_prop(&mut props, text_prop("title", "Xbox Controller Mapping".to_string()));
    push_prop(&mut props, text_prop("span", "wide".to_string()));
    assert(props_view(props@) =~= seq![
        text_prop_view("title"@, "Xbox Controller Mapping"@),
        text_prop_view("span"@, "wide"@),
    ]);
    push_element(&mut out, element(1, id_of(p, ".binding-map-pane"), "pane", props));
    append_elements(&mut out, xbox_binding_map(state));
    assert(elements_view(out@) =~= all);
    SurfaceDocument {
        schema: "gamecult.eve.surface.v1".to_string(),
        id: id_of(p, ".surface"),
        title: "Sleipnir Input Mirror".to_string(),
        elements: out,
    }
}

// ---------------------------------------------------------------------
// The shape of the tree
// ---------------------------------------------------------------------

#[verifier::opaque]
pub open spec fn depths(s: Seq<ElementView>) -> Seq<nat> {
    s.map_values(|e: ElementView| e.depth)
}

/// Every depth is at least 1 and at most one more than the depth before it
/// (the first one more than `before`).
#[verifier::opaque]
pub open spec fn chained(d: Seq<nat>, before: nat) -> bool {
    forall|i: int|
        #![trigger d[i]]
        0 <= i < d.len() ==> 1 <= d[i] && d[i] <= (if i == 0 {
            before
        } else {
            d[i - 1]
        }) + 1
}

/// The last depth, or `before` when there is none.
pub open spec fn last_depth(d: Seq<nat>, before: nat) -> nat {
    if d.len() == 0 {
        before
    } else {
        d.last()
    }
}

/// The elements form a tree in preorder: the root first at depth 0, every
/// other element at most one level below the element before it, so that
/// its parent is the nearest earlier element one level up.
pub open spec fn is_preorder_tree(s: Seq<ElementView>) -> bool {
    &&& s.len() > 0
    &&& s[0].depth == 0
    &&& chained(depths(s.drop_first()), 0)
}

proof fn lemma_depths_concat(a: Seq<ElementView>, b: Seq<ElementView>)
    ensures
        depths(a + b) == depths(a) + depths(b),
{
    reveal(depths);
    assert(depths(a + b) =~= depths(a) + depths(b));
}

proof fn lemma_chained_concat(a: Seq<nat>, b: Seq<nat>, before: nat)
    requires
        chained(a, before),
        chained(b, last_depth(a, before)),
    ensures
        chained(a + b, before),
        last_depth(a + b, before) == last_depth(b, last_depth(a, before)),
{
    reveal(chained);
    let c = a + b;
    assert forall|i: int| 0 <= i < c.len() implies 1 <= #[trigger] c[i] && c[i] <= (if i == 0 {
        before
    } else {
        c[i - 1]
    }) + 1 by {
        if i < a.len() {
            assert(c[i] == a[i]);
            if i > 0 {
                assert(c[i - 1] == a[i - 1]);
            }
        } else {
            assert(c[i] == b[i - a.len()]);
            if i > a.len() {
                assert(c[i - 1] == b[i - 1 - a.len()]);
            } else if a.len() > 0 {
                assert(c[i - 1] == a.last());
            }
        }
    }
    if b.len() > 0 {
        assert(c.last() == b.last());
    }
}

proof fn lemma_device_card_depths(st: SleipnirRuntimeState, d: AvailableHidDevice)
    ensures
        depths(device_card(st, d)) == seq![3nat, 4nat, 4nat, 4nat, 4nat],
{
    reveal(depths);
    assert(depths(device_card(st, d)) =~= seq![3nat, 4nat, 4nat, 4nat, 4nat]);
}

proof fn lemma_device_cards_chained(st: SleipnirRuntimeState, ds: Seq<AvailableHidDevice>)
    ensures
        chained(depths(device_cards(st, ds)), 3),
        ds.len() > 0 ==> last_depth(depths(device_cards(st, ds)), 3) == 4,
        ds.len() > 0 ==> depths(device_cards(st, ds)).len() > 0 && depths(device_cards(st, ds))[0] == 3,
        ds.len() == 0 ==> device_cards(st, ds).len() == 0,
    decreases ds.len(),
{
    reveal(depths);
    reveal(chained);
    if ds.len() > 0 {
        lemma_device_cards_chained(st, ds.drop_last());
        let rest = device_cards(st, ds.drop_last());
        let card = device_card(st, ds.last());
        lemma_device_card_depths(st, ds.last());
        lemma_depths_concat(rest, card);
        let cd = depths(card);
        assert(chained(cd, 3));
        assert(chained(cd, 4));
        lemma_chained_concat(depths(rest), cd, 3);
        assert((depths(rest) + cd)[0] == if rest.len() > 0 { depths(rest)[0] } else { cd[0] });
    }
}

proof fn lemma_device_elements_chained(st: SleipnirRuntimeState)
    ensures
        chained(depths(device_elements(st)), 2),
        last_depth(depths(device_elements(st)), 2) == 3 || last_depth(depths(device_elements(st)), 2) == 4,
{
    reveal(depths);
    reveal(chained);
    if st.available_devices@.len() == 0 {
        assert(depths(device_elements(st)) =~= seq![3nat]);
    } else {
        lemma_device_cards_chained(st, st.available_devices@);
        let d = depths(device_elements(st));
        assert forall|i: int| 0 <= i < d.len() implies 1 <= #[trigger] d[i] && d[i] <= (if i == 0 {
            2
        } else {
            d[i - 1]
        }) + 1 by {
        }
    }
}

#[verifier::spinoff_prover]
#[verifier::rlimit(80)]
proof fn lemma_runtime_chained(st: SleipnirRuntimeState)
    ensures
        chained(depths(runtime_pane(st)), 0),
        last_depth(depths(runtime_pane(st)), 0) >= 3,
{
    reveal(depths);
    reveal(chained);
    reveal(runtime_pane);
    let head = runtime_head(st);
    let devices = device_elements(st);
    assert(depths(head) == seq![1nat, 2nat, 2nat, 2nat, 2nat, 2nat, 2nat, 2nat, 2nat]) by {
        reveal(runtime_head);
        assert(depths(head) =~= seq![1nat, 2nat, 2nat, 2nat, 2nat, 2nat, 2nat, 2nat, 2nat]);
    }
    lemma_depths_concat(head, devices);
    lemma_device_elements_chained(st);
    lemma_chained_concat(depths(head), depths(devices), 0);
}

proof fn lemma_extend(prefix: Seq<ElementView>, next: Seq<ElementView>)
    requires
        chained(depths(prefix), 0),
        chained(depths(next), last_depth(depths(prefix), 0)),
    ensures
        chained(depths(prefix + next), 0),
        last_depth(depths(prefix + next), 0) == last_depth(depths(next), last_depth(depths(prefix), 0)),
{
    lemma_depths_concat(prefix, next);
    lemma_chained_concat(depths(prefix), depths(next), 0);
}

proof fn lemma_drop_first_append(x: Seq<ElementView>, y: Seq<ElementView>)
    requires
        x.len() > 0,
    ensures
        (x + y).drop_first() == x.drop_first() + y,
{
    assert((x + y).drop_first() =~= x.drop_first() + y);
}

proof fn lemma_input_depths(st: SleipnirRuntimeState)
    ensures
        depths(input_pane(st)) == seq![1nat, 2nat, 2nat, 2nat, 2nat, 2nat],
{
    reveal(depths);
    reveal(input_pane);
    assert(depths(input_pane(st)) =~= seq![1nat, 2nat, 2nat, 2nat, 2nat, 2nat]);
}

proof fn lemma_latency_chained(st: SleipnirRuntimeState)
    ensures
        chained(depths(latency_pane(st)), 0),
        last_depth(depths(latency_pane(st)), 0) == 2,
{
    reveal(depths);
    reveal(chained);
    reveal(latency_pane);
    let d = depths(latency_pane(st));
    match st.last_input_latency {
        None => assert(d =~= seq![1nat, 2nat]),
        Some(t) => assert(d =~= seq![1nat, 2nat, 2nat, 2nat, 2nat, 2nat, 2nat]),
    }
}

proof fn lemma_axis_depths(st: SleipnirRuntimeState)
    ensures
        depths(axis_pane(st)) == seq![1nat, 2nat],
{
    reveal(depths);
    reveal(axis_pane);
    assert(depths(axis_pane(st)) =~= seq![1nat, 2nat]);
}

proof fn lemma_remap_depths(st: SleipnirRuntimeState)
    ensures
        depths(remap_pane(st)) == seq![1nat, 2nat, 3nat, 2nat, 3nat],
{
    reveal(depths);
    reveal(remap_pane);
    assert(depths(remap_pane(st)) =~= seq![1nat, 2nat, 3nat, 2nat, 3nat]);
}

proof fn lemma_binding_pane_chained(st: SleipnirRuntimeState)
    ensures
        chained(depths(binding_map_pane(st)), 0),
{
    reveal(depths);
    reveal(chained);
    reveal(binding_map_pane);
    let d = depths(binding_map_pane(st));
    assert(xbox_slots().len() == 19);
    assert(d.len() == 21);
    assert forall|i: int| 0 <= i < d.len() implies 1 <= #[trigger] d[i] && d[i] <= (if i == 0 {
        0
    } else {
        d[i - 1]
    }) + 1 by {
        if i > 2 {
            assert(d[i - 1] == 3);
        }
    }
}

proof fn lemma_chained_weaken(d: Seq<nat>, low: nat, high: nat)
    requires
        chained(d, low),
        low <= high,
    ensures
        chained(d, high),
{
    reveal(chained);
}

/// The surface's elements after the root.
pub open spec fn surface_body(st: SleipnirRuntimeState) -> Seq<ElementView> {
    runtime_pane(st) + input_pane(st) + latency_pane(st) + axis_pane(st) + remap_pane(st)
        + binding_map_pane(st)
}

proof fn lemma_surface_body(st: SleipnirRuntimeState)
    ensures
        surface_elements(st).drop_first() == surface_body(st),
        surface_elements(st)[0] == root_view(st),
{
    let a = runtime_pane(st);
    let b = input_pane(st);
    let c = latency_pane(st);
    let e = axis_pane(st);
    let f = remap_pane(st);
    let g = binding_map_pane(st);
    let r = seq![root_view(st)];
    assert(r.drop_first() =~= Seq::<ElementView>::empty());
    assert(Seq::<ElementView>::empty() + a =~= a);
    lemma_drop_first_append(r, a);
    lemma_drop_first_append(r + a, b);
    lemma_drop_first_append(r + a + b, c);
    lemma_drop_first_append(r + a + b + c, e);
    lemma_drop_first_append(r + a + b + c + e, f);
    lemma_drop_first_append(r + a + b + c + e + f, g);
}

#[verifier::spinoff_prover]
#[verifier::rlimit(60)]
proof fn lemma_body_chained(st: SleipnirRuntimeState)
    ensures
        chained(depths(surface_body(st)), 0),
{
    let a = runtime_pane(st);
    let b = input_pane(st);
    let c = latency_pane(st);
    let e = axis_pane(st);
    let f = remap_pane(st);
    let g = binding_map_pane(st);
    lemma_runtime_chained(st);
    lemma_input_depths(st);
    lemma_latency_chained(st);
    lemma_axis_depths(st);
    lemma_remap_depths(st);
    lemma_binding_pane_chained(st);
    assert(chained(depths(b), 0) && chained(depths(e), 0) && chained(depths(f), 0)) by {
        reveal(chained);
    }
    lemma_chained_weaken(depths(b), 0, last_depth(depths(a), 0));
    lemma_extend(a, b);
    lemma_chained_weaken(depths(c), 0, last_depth(depths(a + b), 0));
    lemma_extend(a + b, c);
    lemma_chained_weaken(depths(e), 0, last_depth(depths(a + b + c), 0));
    lemma_extend(a + b + c, e);
    lemma_chained_weaken(depths(f), 0, last_depth(depths(a + b + c + e), 0));
    lemma_extend(a + b + c + e, f);
    lemma_chained_weaken(depths(g), 0, last_depth(depths(a + b + c + e + f), 0));
    lemma_extend(a + b + c + e + f, g);
}

/// Sleipnir's surface is a tree written in preorder: the dashboard is its
/// root, and each element is at most one level below the one before it.
pub proof fn law_surface_is_a_preorder_tree(st: SleipnirRuntimeState)
    ensures
        is_preorder_tree(surface_elements(st)),
        surface_elements(st)[0].kind == "dashboard"@,
{
    assert(root_view(st).depth == 0 && root_view(st).kind == "dashboard"@) by {
        reveal(root_view);
    }
    lemma_surface_body(st);
    lemma_body_chained(st);
}

} // verus!
