//! The state Sleipnir's input stream is in, and what Sleipnir reports to
//! Idunn about its health: the state, the detail line, and the message id
//! the report travels under.
use vstd::prelude::*;
use crate::text::{chars_of, decimal, push_char, push_decimal, push_decimal_u128, push_str, str_eq};

verus! {

/// `active` while the stream is connected or idle, `degraded` otherwise.
pub open spec fn health_state_text(stream_state: Seq<char>) -> Seq<char> {
    if stream_state == "connected"@ || stream_state == "idle"@ {
        "active"@
    } else {
        "degraded"@
    }
}

/// The health state reported for a stream state.
pub fn health_state(stream_state: &str) -> (r: &'static str)
    ensures
        r@ == health_state_text(stream_state@),
{
    if str_eq(stream_state, "connected") || str_eq(stream_state, "idle") {
        "active"
    } else {
        "degraded"
    }
}

pub open spec fn text_or(o: Option<Seq<char>>, default: Seq<char>) -> Seq<char> {
    match o {
        Some(t) => t,
        None => default,
    }
}

pub open spec fn number_or_none(o: Option<nat>) -> Seq<char> {
    match o {
        Some(n) => decimal(n),
        None => "none"@,
    }
}

/// "Sleipnir STATE: endpoint=E device=D sequence=S age_ms=A", with
/// `discovering`, `unselected` and `none` for what is not known.
pub open spec fn health_detail_text(
    stream_state: Seq<char>,
    endpoint: Option<Seq<char>>,
    device_filter: Option<Seq<char>>,
    last_sequence: Option<nat>,
    last_frame_age_ms: Option<nat>,
) -> Seq<char> {
    "Sleipnir "@ + stream_state + ": endpoint="@ + text_or(endpoint, "discovering"@) + " device="@
        + text_or(device_filter, "unselected"@) + " sequence="@ + number_or_none(last_sequence)
        + " age_ms="@ + number_or_none(last_frame_age_ms)
}

pub open spec fn opt_text(o: Option<&str>) -> Option<Seq<char>> {
    match o {
        Some(s) => Some(s@),
        None => None,
    }
}

/// The detail line of a health report.
pub fn health_detail(
    stream_state: &str,
    endpoint: Option<&str>,
    device_filter: Option<&str>,
    last_sequence: Option<u64>,
    last_frame_age_ms: Option<u128>,
) -> (r: String)
    ensures
        r@ == health_detail_text(
            stream_state@,
            opt_text(endpoint),
            opt_text(device_filter),
            match last_sequence {
                Some(n) => Some(n as nat),
                None => None,
            },
            match last_frame_age_ms {
                Some(n) => Some(n as nat),
                None => None,
            },
        ),
{
    let mut s = "Sleipnir ".to_string();
    push_str(&mut s, stream_state);
    push_str(&mut s, ": endpoint=");
    match endpoint {
        Some(e) => push_str(&mut s, e),
        None => push_str(&mut s, "discovering"),
    }
    push_str(&mut s, " device=");
    match device_filter {
        Some(d) => push_str(&mut s, d),
        None => push_str(&mut s, "unselected"),
    }
    push_str(&mut s, " sequence=");
    match last_sequence {
        Some(n) => push_decimal(&mut s, n),
        None => push_str(&mut s, "none"),
    }
    push_str(&mut s, " age_ms=");
    match last_frame_age_ms {
        Some(n) => push_decimal_u128(&mut s, n),
        None => push_str(&mut s, "none"),
    }
    s
}

/// `s` with every `:` turned into `-`.
pub open spec fn colons_dashed(s: Seq<char>) -> Seq<char> {
    Seq::new(s.len(), |i: int| if s[i] == ':' { '-' } else { s[i] })
}

/// The message id of a health report: `sleipnir-health:DAEMON:AT`, with
/// the colons of the timestamp turned into dashes.
pub fn health_message_id(daemon_id: &str, observed_at: &str) -> (r: String)
    ensures
        r@ == "sleipnir-health:"@ + daemon_id@ + ":"@ + colons_dashed(observed_at@),
{
    let mut s = "sleipnir-health:".to_string();
    push_str(&mut s, daemon_id);
    push_str(&mut s, ":");
    let ghost prefix = s@;
    let v = chars_of(observed_at);
    let mut i: usize = 0;
    while i < v.len()
        invariant
            i <= v@.len(),
            v@ == observed_at@,
            s@ == prefix + colons_dashed(v@.subrange(0, i as int)),
        decreases v@.len() - i,
    {
        let c = v[i];
        push_char(&mut s, if c == ':' { '-' } else { c });
        i = i + 1;
        assert(colons_dashed(v@.subrange(0, i as int)) =~= colons_dashed(
            v@.subrange(0, i - 1),
        ).push(if c == ':' { '-' } else { c }));
    }
    assert(v@.subrange(0, i as int) =~= v@);
    s
}

/// What is known of the input stream Sleipnir holds, if it holds one.
#[derive(Clone, Copy, Debug, PartialEq, Eq, Structural)]
pub struct StreamFacts {
    /// A frame arrived within the last three seconds.
    pub has_recent_frame: bool,
    /// The transport has finished its handshake.
    pub transport_connected: bool,
    /// The stream has an endpoint to connect to.
    pub has_target: bool,
}

/// `idle` while mapping is disabled; with a stream, `connected` once frames
/// flow or the transport is up, `connecting` towards a target, `listening`
/// otherwise; `discovering` without a stream.
pub open spec fn stream_state_text(mapping_enabled: bool, stream: Option<StreamFacts>) -> Seq<char> {
    if !mapping_enabled {
        "idle"@
    } else {
        match stream {
            Some(f) => if f.has_recent_frame || f.transport_connected {
                "connected"@
            } else if f.has_target {
                "connecting"@
            } else {
                "listening"@
            },
            None => "discovering"@,
        }
    }
}

/// The state Sleipnir's input stream is shown and reported in.
pub fn stream_state(mapping_enabled: bool, stream: Option<StreamFacts>) -> (r: &'static str)
    ensures
        r@ == stream_state_text(mapping_enabled, stream),
{
    if !mapping_enabled {
        return "idle";
    }
    match stream {
        Some(f) => if f.has_recent_frame || f.transport_connected {
            "connected"
        } else if f.has_target {
            "connecting"
        } else {
            "listening"
        },
        None => "discovering",
    }
}

/// The virtual controller backend Sleipnir drives: logging on a dry run,
/// ViGEm's Xbox 360 pad on Windows, none elsewhere.
pub fn virtual_backend(dry_run: bool, windows: bool) -> (r: &'static str)
    ensures
        r@ == (if dry_run {
            "logging.dry-run"@
        } else if windows {
            "vigem.xbox360"@
        } else {
            "unavailable"@
        }),
{
    if dry_run {
        "logging.dry-run"
    } else if windows {
        "vigem.xbox360"
    } else {
        "unavailable"
    }
}

} // verus!
