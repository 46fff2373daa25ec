//! The button half of Sleipnir's input mapping, and which controller
//! records a device filter lets through.
use vstd::prelude::*;
use crate::documents::copy_string;
use crate::text::{
    chars_lt, chars_of, compare_chars, contains_chars, contains_seq, decimal, lower_seq, push_decimal,
    push_str, str_eq, trim, trim_bounds, TextOrder,
};

verus! {

/// One entry of the button map: presses of `source` are reported as
/// `target`; a target of `none` (in any case) or blank drops them.
pub struct ButtonBinding {
    pub source: String,
    pub target: String,
}

pub open spec fn bindings_view(m: Seq<ButtonBinding>) -> Seq<(Seq<char>, Seq<char>)> {
    m.map_values(|b: ButtonBinding| (b.source@, b.target@))
}

/// The target bound to `button`: the first entry for it, as a map holds
/// one entry per source.
pub open spec fn bound_target(m: Seq<(Seq<char>, Seq<char>)>, button: Seq<char>) -> Option<
    Seq<char>,
>
    decreases m.len(),
{
    if m.len() == 0 {
        None
    } else if m[0].0 == button {
        Some(m[0].1)
    } else {
        bound_target(m.drop_first(), button)
    }
}

/// The name a pressed button is reported under.
pub open spec fn mapped_name(m: Seq<(Seq<char>, Seq<char>)>, button: Seq<char>) -> Seq<char> {
    match bound_target(m, button) {
        Some(t) => t,
        None => button,
    }
}

/// `str::eq_ignore_ascii_case`.
pub open spec fn eq_ignore_ascii_case(a: Seq<char>, b: Seq<char>) -> bool {
    lower_seq(a) == lower_seq(b)
}

/// A target that drops the press.
pub open spec fn dropped(t: Seq<char>) -> bool {
    eq_ignore_ascii_case(t, "none"@) || trim(t).len() == 0
}

/// The reported buttons of a record: each pressed button under its mapped
/// name, dropped ones left out, each name once, in the order first seen.
pub open spec fn mapped_button_names(
    m: Seq<(Seq<char>, Seq<char>)>,
    buttons: Seq<Seq<char>>,
) -> Seq<Seq<char>>
    decreases buttons.len(),
{
    if buttons.len() == 0 {
        Seq::empty()
    } else {
        let before = mapped_button_names(m, buttons.drop_last());
        let t = mapped_name(m, buttons.last());
        if dropped(t) || before.contains(t) {
            before
        } else {
            before.push(t)
        }
    }
}

pub open spec fn strings_view(v: Seq<String>) -> Seq<Seq<char>> {
    v.map_values(|s: String| s@)
}

/// The target bound to `button` in `map`, if any.
fn lookup_target(map: &Vec<ButtonBinding>, button: &str) -> (r: Option<usize>)
    ensures
        match r {
            Some(k) => k < map@.len() && bound_target(bindings_view(map@), button@) == Some(
                map@[k as int].target@,
            ),
            None => bound_target(bindings_view(map@), button@) is None,
        },
{
    let ghost m = bindings_view(map@);
    let mut k: usize = 0;
    assert(m.subrange(0, m.len() as int) =~= m);
    while k < map.len()
        invariant
            k <= map@.len(),
            m == bindings_view(map@),
            bound_target(m, button@) == bound_target(m.subrange(k as int, m.len() as int), button@),
        decreases map@.len() - k,
    {
        let ghost rest = m.subrange(k as int, m.len() as int);
        assert(rest[0] == (map@[k as int].source@, map@[k as int].target@));
        if str_eq(map[k].source.as_str(), button) {
            return Some(k);
        }
        assert(rest.drop_first() =~= m.subrange(k + 1, m.len() as int));
        k = k + 1;
    }
    None
}

/// Whether `t` is `none` in any case, or blank.
fn is_dropped(t: &str) -> (r: bool)
    ensures
        r == dropped(t@),
{
    proof {
        reveal_strlit("none");
    }
    let v = chars_of(t);
    let (a, b) = trim_bounds(v.as_slice());
    if a == b {
        return true;
    }
    if v.len() != 4 {
        assert(lower_seq(t@).len() != lower_seq("none"@).len());
        return false;
    }
    let none = chars_of("none");
    let mut i: usize = 0;
    while i < 4
        invariant
            i <= 4,
            v@ == t@,
            v@.len() == 4,
            none@ == "none"@,
            none@.len() == 4,
            trim(t@).len() > 0,
            forall|j: int| 0 <= j < i ==> crate::text::ascii_lower(v@[j]) == none@[j],
        decreases 4 - i,
    {
        proof {
            reveal_strlit("none");
        }
        let c = v[i];
        let l = if 'A' <= c && c <= 'Z' {
            ((c as u8) + 32) as char
        } else {
            c
        };
        assert(l == crate::text::ascii_lower(c)) by {
            if 'A' <= c && c <= 'Z' {
                assert(((c as u8) + 32) as char == ((c as u32) + 32) as char);
            }
        };
        if l != none[i] {
            assert(lower_seq(t@)[i as int] != lower_seq("none"@)[i as int]);
            return false;
        }
        i = i + 1;
    }
    assert(lower_seq(t@) =~= lower_seq("none"@));
    true
}

/// The buttons a record reports once mapped: each pressed button under the
/// target the map binds it to (itself when unbound), leaving out those
/// bound to `none` or to a blank target, and each name only once.
pub fn mapped_buttons(buttons: &Vec<String>, map: &Vec<ButtonBinding>) -> (r: Vec<String>)
    ensures
        strings_view(r@) == mapped_button_names(bindings_view(map@), strings_view(buttons@)),
{
    let ghost m = bindings_view(map@);
    let ghost bs = strings_view(buttons@);
    let mut out: Vec<String> = Vec::new();
    let mut i: usize = 0;
    while i < buttons.len()
        invariant
            i <= buttons@.len(),
            m == bindings_view(map@),
            bs == strings_view(buttons@),
            strings_view(out@) == mapped_button_names(m, bs.subrange(0, i as int)),
        decreases buttons@.len() - i,
    {
        let button = buttons[i].as_str();
        let mapped: &str = match lookup_target(map, button) {
            Some(k) => map[k].target.as_str(),
            None => button,
        };
        assert(mapped@ == mapped_name(m, bs[i as int]));
        assert(bs.subrange(0, i + 1).drop_last() =~= bs.subrange(0, i as int));
        let ghost before = strings_view(out@);
        if !is_dropped(mapped) {
            let mut seen = false;
            let mut j: usize = 0;
            while j < out.len()
                invariant
                    j <= out@.len(),
                    before == strings_view(out@),
                    seen == exists|q: int| 0 <= q < j && before[q] == mapped@,
                decreases out@.len() - j,
            {
                assert(before[j as int] == out@[j as int]@);
                if str_eq(out[j].as_str(), mapped) {
                    seen = true;
                }
                j = j + 1;
            }
            assert(seen == before.contains(mapped@));
            if !seen {
                out.push(copy_string(&mapped.to_string()));
                assert(strings_view(out@) =~= before.push(mapped@));
            }
        }
        i = i + 1;
    }
    assert(bs.subrange(0, i as int) =~= bs);
    out
}

/// The button map a mapping starts from: `trigger` and `l2` dropped.
pub fn default_button_map() -> (r: Vec<ButtonBinding>)
    ensures
        bindings_view(r@) == seq![("trigger"@, "none"@), ("l2"@, "none"@)],
{
    let r = vec![
        ButtonBinding { source: "trigger".to_string(), target: "none".to_string() },
        ButtonBinding { source: "l2".to_string(), target: "none".to_string() },
    ];
    assert(bindings_view(r@) =~= seq![("trigger"@, "none"@), ("l2"@, "none"@)]);
    r
}

/// What a device filter is matched against in a controller record.
pub struct HidRecordIdentity {
    pub device_id: String,
    pub stream_id: String,
    pub source_path: String,
    pub device_kind: String,
}

/// A record passes the filter when there is none, or when the filter is
/// its device id, stream id or device kind, or occurs in its source path.
pub open spec fn record_passes(r: HidRecordIdentity, filter: Option<Seq<char>>) -> bool {
    match filter {
        None => true,
        Some(f) => r.device_id@ == f || r.stream_id@ == f || contains_seq(r.source_path@, f)
            || r.device_kind@ == f,
    }
}

/// Whether a controller record passes a device filter.
pub fn record_matches_filter(record: &HidRecordIdentity, device_filter: Option<&str>) -> (r: bool)
    ensures
        r == record_passes(
            *record,
            match device_filter {
                Some(f) => Some(f@),
                None => None,
            },
        ),
{
    match device_filter {
        None => true,
        Some(f) => {
            if str_eq(record.device_id.as_str(), f) || str_eq(record.stream_id.as_str(), f) {
                return true;
            }
            let path = chars_of(record.source_path.as_str());
            let fc = chars_of(f);
            contains_chars(path.as_slice(), fc.as_slice()) || str_eq(record.device_kind.as_str(), f)
        },
    }
}

/// Where a desired mapping record was read from.
#[derive(Clone, Copy, Debug, PartialEq, Eq, Structural)]
pub enum MappingSource {
    /// Sleipnir's own store.
    Local,
    /// Odin's discovery store.
    Discovery,
}

/// The record a mapping is read from, given the `updated_at` stamps of the
/// records found: the discovery record only when it is strictly newer, by
/// text order of the stamps, or when it is the only one.
pub open spec fn newest_mapping(local: Option<Seq<char>>, discovery: Option<Seq<char>>) -> Option<
    MappingSource,
> {
    match (local, discovery) {
        (Some(l), Some(d)) => if chars_lt(l, d) {
            Some(MappingSource::Discovery)
        } else {
            Some(MappingSource::Local)
        },
        (Some(_), None) => Some(MappingSource::Local),
        (None, Some(_)) => Some(MappingSource::Discovery),
        (None, None) => None,
    }
}

/// Chooses between the local and the discovery mapping record by their
/// `updated_at` stamps.
pub fn newest_sleipnir_mapping_record(
    local_updated_at: Option<&str>,
    discovery_updated_at: Option<&str>,
) -> (r: Option<MappingSource>)
    ensures
        r == newest_mapping(
            match local_updated_at {
                Some(s) => Some(s@),
                None => None,
            },
            match discovery_updated_at {
                Some(s) => Some(s@),
                None => None,
            },
        ),
{
    match (local_updated_at, discovery_updated_at) {
        (Some(l), Some(d)) => {
            let lc = chars_of(l);
            let dc = chars_of(d);
            if compare_chars(dc.as_slice(), lc.as_slice()) == TextOrder::Greater {
                Some(MappingSource::Discovery)
            } else {
                Some(MappingSource::Local)
            }
        },
        (Some(_), None) => Some(MappingSource::Local),
        (None, Some(_)) => Some(MappingSource::Discovery),
        (None, None) => None,
    }
}

/// The device filter in force: the desired mapping's, else the command
/// line's.
pub fn effective_device_filter(mapping_filter: Option<&str>, option_filter: Option<&str>) -> (r:
    Option<String>)
    ensures
        match (mapping_filter, option_filter) {
            (Some(m), _) => r matches Some(x) && x@ == m@,
            (None, Some(o)) => r matches Some(x) && x@ == o@,
            (None, None) => r is None,
        },
{
    match mapping_filter {
        Some(m) => Some(m.to_string()),
        None => match option_filter {
            Some(o) => Some(o.to_string()),
            None => None,
        },
    }
}

/// How an axis binding is labelled on the binding map: `axis N`, with
/// ` inverted` when it is, or `unmapped` without a binding.
pub fn axis_binding_label(binding: Option<(usize, bool)>) -> (r: String)
    ensures
        r@ == match binding {
            Some((source, invert)) => "axis "@ + decimal(source as nat) + if invert {
                " inverted"@
            } else {
                Seq::empty()
            },
            None => "unmapped"@,
        },
{
    match binding {
        Some((source, invert)) => {
            let mut s = "axis ".to_string();
            push_decimal(&mut s, source as u64);
            if invert {
                push_str(&mut s, " inverted");
            }
            s
        },
        None => "unmapped".to_string(),
    }
}

} // verus!
