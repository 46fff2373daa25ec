//! The decisions of Sleipnir's mirror loop, from what happened to what to
//! do next: when to pull Odin's catalog and retry discovery (every two
//! seconds while no input target is known), when to neutralise the
//! virtual pad (on a mapping change, before a stale connection is
//! recreated, and after 1.5 s without new output), how a button edge
//! changes the held buttons, and when to publish the surface (a second
//! after applied input, five while no input target is known).
use vstd::prelude::*;
use crate::sleipnir::surface::texts_view;
use crate::documents::copy_string;
use crate::text::str_eq;

verus! {

/// How long a pad may hold a non-neutral output without new input.
pub const STALE_NEUTRAL_AFTER_MS: u64 = 1500;

/// How often discovery and the catalog pull are retried.
pub const REDISCOVER_EVERY_MS: u64 = 2000;

/// How soon after applied input the surface is published again.
pub const PUBLISH_AFTER_INPUT_MS: u64 = 1000;

/// How often the surface is published while no input target is known.
pub const PUBLISH_WITHOUT_TARGET_MS: u64 = 5000;

/// What the loop holds of its input stream.
#[derive(Clone, Copy, Debug, PartialEq, Eq, Structural)]
pub enum StreamLink {
    /// No stream was opened.
    Absent,
    /// A stream listens, but no Muninn endpoint was found for it.
    Listening,
    /// A stream is aimed at a Muninn endpoint.
    Targeted,
}

/// The loop's own state between events; times are milliseconds on a
/// monotonic clock, `None` for never.
pub struct SleipnirLoopState {
    pub mapping_enabled: bool,
    pub link: StreamLink,
    pub output_is_neutral: bool,
    pub last_output_at: Option<u64>,
    pub last_surface_publish_at: Option<u64>,
    pub last_catalog_pull_at: Option<u64>,
    pub last_discovery_attempt_at: u64,
    /// Whether input was applied since the last publication check.
    pub applied_since_check: bool,
    /// The buttons of the last applied controller record, if any.
    pub held_buttons: Option<Vec<String>>,
}

pub ghost struct LoopView {
    pub mapping_enabled: bool,
    pub link: StreamLink,
    pub output_is_neutral: bool,
    pub last_output_at: Option<u64>,
    pub last_surface_publish_at: Option<u64>,
    pub last_catalog_pull_at: Option<u64>,
    pub last_discovery_attempt_at: u64,
    pub applied_since_check: bool,
    pub held_buttons: Option<Seq<Seq<char>>>,
}

impl View for SleipnirLoopState {
    type V = LoopView;

    open spec fn view(&self) -> LoopView {
        LoopView {
            mapping_enabled: self.mapping_enabled,
            link: self.link,
            output_is_neutral: self.output_is_neutral,
            last_output_at: self.last_output_at,
            last_surface_publish_at: self.last_surface_publish_at,
            last_catalog_pull_at: self.last_catalog_pull_at,
            last_discovery_attempt_at: self.last_discovery_attempt_at,
            applied_since_check: self.applied_since_check,
            held_buttons: match self.held_buttons {
                Some(b) => Some(texts_view(b@)),
                None => None,
            },
        }
    }
}

/// What happened in the loop.
pub enum SleipnirEvent {
    /// An iteration begins.
    IterationStarted { now: u64 },
    /// The desired mapping changed; `enabled` is its switch.
    MappingChanged { now: u64, enabled: bool },
    /// The stream's connection went stale and must be recreated.
    ConnectionStale { now: u64 },
    /// A stream was (re)created; `link` is what it holds.
    StreamCreated { link: StreamLink },
    /// A controller record was handed to the virtual pad; `emitted` tells
    /// whether the pad took it, `neutral` whether its output is neutral.
    RecordApplied { now: u64, emitted: bool, neutral: bool, buttons: Vec<String> },
    /// A button edge was released by the semantic cursor.
    EdgeReleased { button: String, pressed: bool },
    /// The pad was updated; `neutral` tells whether its output is neutral.
    PadUpdated { now: u64, neutral: bool },
    /// The records and edges of this iteration were all handled.
    ReceiveFinished { now: u64 },
    /// No stream is open.
    StreamMissing { now: u64 },
    /// The iteration is about to sleep.
    IterationFinished { now: u64 },
}

pub ghost enum EventView {
    IterationStarted { now: u64 },
    MappingChanged { now: u64, enabled: bool },
    ConnectionStale { now: u64 },
    StreamCreated { link: StreamLink },
    RecordApplied { now: u64, emitted: bool, neutral: bool, buttons: Seq<Seq<char>> },
    EdgeReleased { button: Seq<char>, pressed: bool },
    PadUpdated { now: u64, neutral: bool },
    ReceiveFinished { now: u64 },
    StreamMissing { now: u64 },
    IterationFinished { now: u64 },
}

impl View for SleipnirEvent {
    type V = EventView;

    open spec fn view(&self) -> EventView {
        match self {
            SleipnirEvent::IterationStarted { now } => EventView::IterationStarted { now: *now },
            SleipnirEvent::MappingChanged { now, enabled } => EventView::MappingChanged {
                now: *now,
                enabled: *enabled,
            },
            SleipnirEvent::ConnectionStale { now } => EventView::ConnectionStale { now: *now },
            SleipnirEvent::StreamCreated { link } => EventView::StreamCreated { link: *link },
            SleipnirEvent::RecordApplied { now, emitted, neutral, buttons } =>
                EventView::RecordApplied {
                now: *now,
                emitted: *emitted,
                neutral: *neutral,
                buttons: texts_view(buttons@),
            },
            SleipnirEvent::EdgeReleased { button, pressed } => EventView::EdgeReleased {
                button: button@,
                pressed: *pressed,
            },
            SleipnirEvent::PadUpdated { now, neutral } => EventView::PadUpdated {
                now: *now,
                neutral: *neutral,
            },
            SleipnirEvent::ReceiveFinished { now } => EventView::ReceiveFinished { now: *now },
            SleipnirEvent::StreamMissing { now } => EventView::StreamMissing { now: *now },
            SleipnirEvent::IterationFinished { now } => EventView::IterationFinished { now: *now },
        }
    }
}

/// What the loop should do.
pub enum SleipnirAction {
    /// Pull Odin's catalog snapshot into the discovery store.
    PullCatalog,
    /// Put the virtual pad to its neutral state.
    NeutralizePad,
    /// Start the semantic cursor over.
    ResetCursor,
    /// Drop the stream and open a new one, aimed at the endpoint that
    /// discovery finds when `discover` holds, else at none.
    RecreateStream { discover: bool },
    /// Look for an endpoint again; open a stream to it if one is found.
    RetryDiscovery { discover: bool },
    /// Drive the pad from the last record with these buttons held.
    UpdatePad { buttons: Vec<String> },
    /// Publish the surface, to remote peers too when `remote` holds.
    PublishSurface { remote: bool },
}

pub ghost enum ActionView {
    PullCatalog,
    NeutralizePad,
    ResetCursor,
    RecreateStream { discover: bool },
    RetryDiscovery { discover: bool },
    UpdatePad { buttons: Seq<Seq<char>> },
    PublishSurface { remote: bool },
}

impl View for SleipnirAction {
    type V = ActionView;

    open spec fn view(&self) -> ActionView {
        match self {
            SleipnirAction::PullCatalog => ActionView::PullCatalog,
            SleipnirAction::NeutralizePad => ActionView::NeutralizePad,
            SleipnirAction::ResetCursor => ActionView::ResetCursor,
            SleipnirAction::RecreateStream { discover } => ActionView::RecreateStream {
                discover: *discover,
            },
            SleipnirAction::RetryDiscovery { discover } => ActionView::RetryDiscovery {
                discover: *discover,
            },
            SleipnirAction::UpdatePad { buttons } => ActionView::UpdatePad {
                buttons: texts_view(buttons@),
            },
            SleipnirAction::PublishSurface { remote } => ActionView::PublishSurface {
                remote: *remote,
            },
        }
    }
}

pub open spec fn actions_view(v: Seq<SleipnirAction>) -> Seq<ActionView> {
    v.map_values(|a: SleipnirAction| a@)
}

/// Milliseconds from `then` to `now` on a monotonic clock (none if the
/// clock reads earlier).
pub open spec fn elapsed(now: u64, then: u64) -> int {
    if now >= then {
        now - then
    } else {
        0
    }
}

/// Whether at least `period` has passed since `then`; always so when it
/// never happened.
pub open spec fn due(now: u64, then: Option<u64>, period: u64) -> bool {
    match then {
        Some(t) => elapsed(now, t) >= period,
        None => true,
    }
}

/// The held buttons after an edge: a press adds the button unless it is
/// held, a release lets go of it.
pub open spec fn buttons_after_edge(held: Seq<Seq<char>>, button: Seq<char>, pressed: bool) -> Seq<
    Seq<char>,
> {
    if pressed {
        if held.contains(button) {
            held
        } else {
            held.push(button)
        }
    } else {
        without(held, button)
    }
}

/// `held` with every copy of `button` taken out, the rest in order.
pub open spec fn without(held: Seq<Seq<char>>, button: Seq<char>) -> Seq<Seq<char>>
    decreases held.len(),
{
    if held.len() == 0 {
        held
    } else {
        let rest = without(held.drop_last(), button);
        if held.last() == button {
            rest
        } else {
            rest.push(held.last())
        }
    }
}

/// One step of the loop: the state after `event`, and the actions it calls
/// for, in order.
pub open spec fn sleipnir_step_spec(s: LoopView, e: EventView) -> (LoopView, Seq<ActionView>) {
    match e {
        EventView::IterationStarted { now } => if s.link != StreamLink::Targeted && due(
            now,
            s.last_catalog_pull_at,
            REDISCOVER_EVERY_MS,
        ) {
            (LoopView { last_catalog_pull_at: Some(now), ..s }, seq![ActionView::PullCatalog])
        } else {
            (s, Seq::empty())
        },
        EventView::MappingChanged { now, enabled } => (
            LoopView {
                mapping_enabled: enabled,
                output_is_neutral: true,
                last_output_at: Some(now),
                ..s
            },
            seq![
                ActionView::NeutralizePad,
                ActionView::RecreateStream { discover: enabled },
                ActionView::ResetCursor,
            ],
        ),
        EventView::ConnectionStale { now } => if s.output_is_neutral {
            (
                LoopView { last_discovery_attempt_at: now, ..s },
                seq![ActionView::RecreateStream { discover: s.mapping_enabled }],
            )
        } else {
            (
                LoopView {
                    output_is_neutral: true,
                    last_output_at: Some(now),
                    last_discovery_attempt_at: now,
                    ..s
                },
                seq![
                    ActionView::NeutralizePad,
                    ActionView::ResetCursor,
                    ActionView::RecreateStream { discover: s.mapping_enabled },
                ],
            )
        },
        EventView::StreamCreated { link } => (LoopView { link, ..s }, Seq::empty()),
        EventView::RecordApplied { now, emitted, neutral, buttons } => if emitted {
            (
                LoopView {
                    output_is_neutral: neutral,
                    last_output_at: Some(now),
                    applied_since_check: true,
                    held_buttons: Some(buttons),
                    ..s
                },
                Seq::empty(),
            )
        } else {
            (LoopView { applied_since_check: true, held_buttons: Some(buttons), ..s }, Seq::empty())
        },
        EventView::EdgeReleased { button, pressed } => match s.held_buttons {
            Some(held) => {
                let next = buttons_after_edge(held, button, pressed);
                (
                    LoopView { held_buttons: Some(next), ..s },
                    seq![ActionView::UpdatePad { buttons: next }],
                )
            },
            None => (s, Seq::empty()),
        },
        EventView::PadUpdated { now, neutral } => (
            LoopView { output_is_neutral: neutral, last_output_at: Some(now), ..s },
            Seq::empty(),
        ),
        EventView::ReceiveFinished { now } => if s.mapping_enabled && !s.output_is_neutral && due(
            now,
            s.last_output_at,
            STALE_NEUTRAL_AFTER_MS,
        ) {
            (
                LoopView { output_is_neutral: true, last_output_at: Some(now), ..s },
                seq![ActionView::NeutralizePad],
            )
        } else {
            (s, Seq::empty())
        },
        EventView::StreamMissing { now } => if elapsed(now, s.last_discovery_attempt_at)
            >= REDISCOVER_EVERY_MS {
            (
                LoopView { last_discovery_attempt_at: now, ..s },
                seq![ActionView::RetryDiscovery { discover: s.mapping_enabled }],
            )
        } else {
            (s, Seq::empty())
        },
        EventView::IterationFinished { now } => {
            let publish = (s.applied_since_check && due(
                now,
                s.last_surface_publish_at,
                PUBLISH_AFTER_INPUT_MS,
            )) || (s.link != StreamLink::Targeted && due(
                now,
                s.last_surface_publish_at,
                PUBLISH_WITHOUT_TARGET_MS,
            ));
            if publish {
                (
                    LoopView {
                        applied_since_check: false,
                        last_surface_publish_at: Some(now),
                        ..s
                    },
                    seq![ActionView::PublishSurface { remote: s.applied_since_check }],
                )
            } else {
                (LoopView { applied_since_check: false, ..s }, Seq::empty())
            }
        },
    }
}

fn elapsed_ms(now: u64, then: u64) -> (r: u64)
    ensures
        r == elapsed(now, then),
{
    if now >= then {
        now - then
    } else {
        0
    }
}

fn is_due(now: u64, then: Option<u64>, period: u64) -> (r: bool)
    ensures
        r == due(now, then, period),
{
    match then {
        Some(t) => elapsed_ms(now, t) >= period,
        None => true,
    }
}

fn holds(held: &Vec<String>, button: &String) -> (r: bool)
    ensures
        r == texts_view(held@).contains(button@),
{
    let mut i: usize = 0;
    while i < held.len()
        invariant
            i <= held@.len(),
            forall|j: int| 0 <= j < i ==> held@[j]@ != button@,
        decreases held@.len() - i,
    {
        if str_eq(held[i].as_str(), button.as_str()) {
            assert(texts_view(held@)[i as int] == button@);
            return true;
        }
        i = i + 1;
    }
    proof {
        if texts_view(held@).contains(button@) {
            let k = choose|k: int| 0 <= k < texts_view(held@).len() && texts_view(held@)[k] == button@;
            assert(held@[k]@ == button@);
        }
    }
    false
}

fn copy_texts(v: &Vec<String>) -> (r: Vec<String>)
    ensures
        texts_view(r@) == texts_view(v@),
{
    let mut out: Vec<String> = Vec::new();
    let mut i: usize = 0;
    while i < v.len()
        invariant
            i <= v@.len(),
            texts_view(out@) == texts_view(v@.subrange(0, i as int)),
        decreases v@.len() - i,
    {
        let ghost before = out@;
        out.push(copy_string(&v[i]));
        assert(texts_view(out@) =~= texts_view(before).push(v@[i as int]@));
        i = i + 1;
        assert(texts_view(v@.subrange(0, i as int)) =~= texts_view(v@.subrange(0, i - 1)).push(v@[i - 1]@));
    }
    assert(v@.subrange(0, v@.len() as int) =~= v@);
    out
}

/// The held buttons after an edge (see `buttons_after_edge`).
pub fn apply_edge(held: &Vec<String>, button: &String, pressed: bool) -> (r: Vec<String>)
    ensures
        texts_view(r@) == buttons_after_edge(texts_view(held@), button@, pressed),
{
    if pressed {
        let mut out = copy_texts(held);
        if !holds(held, button) {
            let ghost before = out@;
            out.push(copy_string(button));
            assert(texts_view(out@) =~= texts_view(before).push(button@));
        }
        out
    } else {
        let mut out: Vec<String> = Vec::new();
        let mut i: usize = 0;
        while i < held.len()
            invariant
                i <= held@.len(),
                texts_view(out@) == without(texts_view(held@.subrange(0, i as int)), button@),
            decreases held@.len() - i,
        {
            let ghost before = out@;
            let ghost prefix = texts_view(held@.subrange(0, i as int));
            if !str_eq(held[i].as_str(), button.as_str()) {
                out.push(copy_string(&held[i]));
                assert(texts_view(out@) =~= texts_view(before).push(held@[i as int]@));
            }
            i = i + 1;
            assert(texts_view(held@.subrange(0, i as int)).drop_last() =~= prefix);
        }
        assert(held@.subrange(0, held@.len() as int) =~= held@);
        out
    }
}

fn copy_state(s: &SleipnirLoopState) -> (r: SleipnirLoopState)
    ensures
        r@ == s@,
{
    SleipnirLoopState {
        mapping_enabled: s.mapping_enabled,
        link: s.link,
        output_is_neutral: s.output_is_neutral,
        last_output_at: s.last_output_at,
        last_surface_publish_at: s.last_surface_publish_at,
        last_catalog_pull_at: s.last_catalog_pull_at,
        last_discovery_attempt_at: s.last_discovery_attempt_at,
        applied_since_check: s.applied_since_check,
        held_buttons: match &s.held_buttons {
            Some(b) => Some(copy_texts(b)),
            None => None,
        },
    }
}

fn one(a: SleipnirAction) -> (r: Vec<SleipnirAction>)
    ensures
        actions_view(r@) == seq![a@],
{
    let mut v: Vec<SleipnirAction> = Vec::new();
    v.push(a);
    assert(actions_view(v@) =~= seq![a@]);
    v
}

fn none() -> (r: Vec<SleipnirAction>)
    ensures
        actions_view(r@) == Seq::<ActionView>::empty(),
{
    let v: Vec<SleipnirAction> = Vec::new();
    assert(actions_view(v@) =~= Seq::<ActionView>::empty());
    v
}

impl SleipnirLoopState {
    /// The loop's state before its first iteration, when the first stream
    /// was opened at `now`: the pad neutral, nothing output or published
    /// yet, no record applied.
    pub fn new(mapping_enabled: bool, link: StreamLink, now: u64) -> (r: Self)
        ensures
            r@ == (LoopView {
                mapping_enabled,
                link,
                output_is_neutral: true,
                last_output_at: None,
                last_surface_publish_at: None,
                last_catalog_pull_at: None,
                last_discovery_attempt_at: now,
                applied_since_check: false,
                held_buttons: None,
            }),
    {
        SleipnirLoopState {
            mapping_enabled,
            link,
            output_is_neutral: true,
            last_output_at: None,
            last_surface_publish_at: None,
            last_catalog_pull_at: None,
            last_discovery_attempt_at: now,
            applied_since_check: false,
            held_buttons: None,
        }
    }
}

/// One step of Sleipnir's mirror loop: the state after `event` and the
/// actions to perform, in order (see `sleipnir_step_spec`).
pub fn sleipnir_step(state: &SleipnirLoopState, event: SleipnirEvent) -> (r: (SleipnirLoopState, Vec<SleipnirAction>))
    ensures
        (r.0@, actions_view(r.1@)) == sleipnir_step_spec(state@, event@),
{
    let mut s = copy_state(state);
    match event {
        SleipnirEvent::IterationStarted { now } => {
            if s.link != StreamLink::Targeted && is_due(now, s.last_catalog_pull_at, REDISCOVER_EVERY_MS) {
                s.last_catalog_pull_at = Some(now);
                (s, one(SleipnirAction::PullCatalog))
            } else {
                (s, none())
            }
        },
        SleipnirEvent::MappingChanged { now, enabled } => {
            s.mapping_enabled = enabled;
            s.output_is_neutral = true;
            s.last_output_at = Some(now);
            let mut v: Vec<SleipnirAction> = Vec::new();
            v.push(SleipnirAction::NeutralizePad);
            v.push(SleipnirAction::RecreateStream { discover: enabled });
            v.push(SleipnirAction::ResetCursor);
            assert(actions_view(v@) =~= seq![
                ActionView::NeutralizePad,
                ActionView::RecreateStream { discover: enabled },
                ActionView::ResetCursor,
            ]);
            (s, v)
        },
        SleipnirEvent::ConnectionStale { now } => {
            let discover = s.mapping_enabled;
            s.last_discovery_attempt_at = now;
            if s.output_is_neutral {
                (s, one(SleipnirAction::RecreateStream { discover }))
            } else {
                s.output_is_neutral = true;
                s.last_output_at = Some(now);
                let mut v: Vec<SleipnirAction> = Vec::new();
                v.push(SleipnirAction::NeutralizePad);
                v.push(SleipnirAction::ResetCursor);
                v.push(SleipnirAction::RecreateStream { discover });
                assert(actions_view(v@) =~= seq![
                    ActionView::NeutralizePad,
                    ActionView::ResetCursor,
                    ActionView::RecreateStream { discover },
                ]);
                (s, v)
            }
        },
        SleipnirEvent::StreamCreated { link } => {
            s.link = link;
            (s, none())
        },
        SleipnirEvent::RecordApplied { now, emitted, neutral, buttons } => {
            if emitted {
                s.output_is_neutral = neutral;
                s.last_output_at = Some(now);
            }
            s.applied_since_check = true;
            s.held_buttons = Some(buttons);
            (s, none())
        },
        SleipnirEvent::EdgeReleased { button, pressed } => {
            match &state.held_buttons {
                Some(held) => {
                    let next = apply_edge(held, &button, pressed);
                    let pad = copy_texts(&next);
                    s.held_buttons = Some(next);
                    (s, one(SleipnirAction::UpdatePad { buttons: pad }))
                },
                None => (s, none()),
            }
        },
        SleipnirEvent::PadUpdated { now, neutral } => {
            s.output_is_neutral = neutral;
            s.last_output_at = Some(now);
            (s, none())
        },
        SleipnirEvent::ReceiveFinished { now } => {
            if s.mapping_enabled && !s.output_is_neutral && is_due(now, s.last_output_at, STALE_NEUTRAL_AFTER_MS) {
                s.output_is_neutral = true;
                s.last_output_at = Some(now);
                (s, one(SleipnirAction::NeutralizePad))
            } else {
                (s, none())
            }
        },
        SleipnirEvent::StreamMissing { now } => {
            if elapsed_ms(now, s.last_discovery_attempt_at) >= REDISCOVER_EVERY_MS {
                s.last_discovery_attempt_at = now;
                let discover = s.mapping_enabled;
                (s, one(SleipnirAction::RetryDiscovery { discover }))
            } else {
                (s, none())
            }
        },
        SleipnirEvent::IterationFinished { now } => {
            let applied = s.applied_since_check;
            let publish = (applied && is_due(now, s.last_surface_publish_at, PUBLISH_AFTER_INPUT_MS))
                || (s.link != StreamLink::Targeted && is_due(
                now,
                s.last_surface_publish_at,
                PUBLISH_WITHOUT_TARGET_MS,
            ));
            s.applied_since_check = false;
            if publish {
                s.last_surface_publish_at = Some(now);
                (s, one(SleipnirAction::PublishSurface { remote: applied }))
            } else {
                (s, none())
            }
        },
    }
}

proof fn lemma_without_absent(held: Seq<Seq<char>>, button: Seq<char>)
    requires
        !held.contains(button),
    ensures
        without(held, button) == held,
    decreases held.len(),
{
    if held.len() > 0 {
        assert(!held.drop_last().contains(button)) by {
            if held.drop_last().contains(button) {
                let k = choose|k: int| 0 <= k < held.drop_last().len() && held.drop_last()[k] == button;
                assert(held[k] == button);
            }
        }
        lemma_without_absent(held.drop_last(), button);
        assert(held.last() != button) by {
            assert(held[held.len() - 1] == held.last());
        }
        assert(held.drop_last().push(held.last()) =~= held);
    }
}

/// Pressing a button that is not held and then releasing it leaves the
/// held buttons as they were.
pub proof fn law_press_then_release_restores(held: Seq<Seq<char>>, button: Seq<char>)
    requires
        !held.contains(button),
    ensures
        buttons_after_edge(buttons_after_edge(held, button, true), button, false) == held,
{
    let pressed = held.push(button);
    assert(pressed.drop_last() =~= held);
    lemma_without_absent(held, button);
}

/// A pad left non-neutral while the mapping is enabled is put back to
/// neutral by the first finished receive at least 1.5 s after its last
/// output, and then stays neutral until new output arrives.
pub proof fn law_stale_output_is_neutralized(s: LoopView, now: u64)
    requires
        s.mapping_enabled,
        !s.output_is_neutral,
        due(now, s.last_output_at, STALE_NEUTRAL_AFTER_MS),
    ensures
        sleipnir_step_spec(s, EventView::ReceiveFinished { now }).1 == seq![ActionView::NeutralizePad],
        sleipnir_step_spec(s, EventView::ReceiveFinished { now }).0.output_is_neutral,
        sleipnir_step_spec(
            sleipnir_step_spec(s, EventView::ReceiveFinished { now }).0,
            EventView::ReceiveFinished { now },
        ).1.len() == 0,
{
}

} // verus!
