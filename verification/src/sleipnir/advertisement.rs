//! The HID devices a provider advertisement lists: those under its fast
//! Muninn HID input streams, as catalog entries.
use vstd::prelude::*;
use crate::documents::opt_view;
use crate::odin_core::discovery::{endpoint_looks_like_socket, socket_like};
use crate::sleipnir::devices::AvailableHidDevice;
use crate::sleipnir::mapping::eq_ignore_ascii_case;
use crate::sleipnir::naming::{host_hint_of, stream_host_hint};
use crate::text::{
    chars_eq, chars_of, contains_chars, contains_seq, lowercase_chars, str_eq, strip_suffixes,
    strip_suffixes_end, string_of, trim, trim_bounds,
};

verus! {

/// A device listed under an advertised input stream: the text of its
/// `deviceId`, `deviceKind` and `sourcePath` fields, where they hold text.
pub struct HidStreamDevice {
    pub device_id: Option<String>,
    pub device_kind: Option<String>,
    pub source_path: Option<String>,
}

/// An advertised input stream: the text of its `address`, `streamId`,
/// `schema` and `transport` fields, and its listed devices.
pub struct HidInputStream {
    pub address: Option<String>,
    pub stream_id: Option<String>,
    pub schema: Option<String>,
    pub transport: Option<String>,
    pub devices: Vec<HidStreamDevice>,
}

/// What HID discovery reads of a provider advertisement: its `verseId`
/// and its input streams.
pub struct HidAdvertisement {
    pub verse_id: Option<String>,
    pub input_streams: Vec<HidInputStream>,
}

/// A catalog entry as text: device id, kind, source path, stream id, host
/// and endpoint.
pub type DeviceView = (Seq<char>, Seq<char>, Seq<char>, Seq<char>, Seq<char>, Seq<char>);

pub open spec fn device_view(d: AvailableHidDevice) -> DeviceView {
    (d.device_id@, d.device_kind@, d.source_path@, d.stream_id@, d.host_id@, d.endpoint@)
}

pub open spec fn devices_view(v: Seq<AvailableHidDevice>) -> Seq<DeviceView> {
    v.map_values(|d: AvailableHidDevice| device_view(d))
}

pub open spec fn text_or(o: Option<String>, default: Seq<char>) -> Seq<char> {
    match o {
        Some(s) => s@,
        None => default,
    }
}

/// A stream Sleipnir can mirror from: Muninn's HID state schema, a HID
/// controller state stream that is not move evidence, a socket endpoint,
/// and an RUDP transport.
pub open spec fn fast_hid_stream(st: HidInputStream, stream_id: Seq<char>, endpoint: Seq<char>) -> bool {
    &&& opt_view(st.schema) == Some("muninn.hid_controller_state.v1"@)
    &&& contains_seq(stream_id, ":hid-controller-state"@)
    &&& !contains_seq(stream_id, "move-evidence"@)
    &&& socket_like(endpoint)
    &&& match st.transport {
        Some(t) => contains_seq(t@, "rudp"@),
        None => false,
    }
}

/// The entries of a stream's devices `devs`: those with a device id, kind
/// `hid` and source path empty where not given.
pub open spec fn stream_entries(
    host: Seq<char>,
    stream_id: Seq<char>,
    endpoint: Seq<char>,
    devs: Seq<HidStreamDevice>,
) -> Seq<DeviceView>
    decreases devs.len(),
{
    if devs.len() == 0 {
        Seq::empty()
    } else {
        let before = stream_entries(host, stream_id, endpoint, devs.drop_last());
        let d = devs.last();
        let id = text_or(d.device_id, Seq::empty());
        if id.len() == 0 {
            before
        } else {
            before.push(
                (
                    id,
                    text_or(d.device_kind, "hid"@),
                    text_or(d.source_path, Seq::empty()),
                    stream_id,
                    host,
                    endpoint,
                ),
            )
        }
    }
}

/// The entries of streams `streams`, stream by stream; a stream without a
/// stream id is `muninn:hid`.
pub open spec fn advertised_entries(host: Seq<char>, streams: Seq<HidInputStream>) -> Seq<DeviceView>
    decreases streams.len(),
{
    if streams.len() == 0 {
        Seq::empty()
    } else {
        let before = advertised_entries(host, streams.drop_last());
        let st = streams.last();
        let endpoint = text_or(st.address, Seq::empty());
        let stream_id = text_or(st.stream_id, "muninn:hid"@);
        if fast_hid_stream(st, stream_id, endpoint) {
            before + stream_entries(host, stream_id, endpoint, st.devices@)
        } else {
            before
        }
    }
}

/// The host of an advertisement: its verse id without trailing `.local`.
pub open spec fn advertised_host(ad: HidAdvertisement) -> Seq<char> {
    strip_suffixes(text_or(ad.verse_id, Seq::empty()), ".local"@)
}

fn copy_text(s: &str) -> (r: String)
    ensures
        r@ == s@,
{
    let v = chars_of(s);
    string_of(v.as_slice())
}

fn text_or_default(o: &Option<String>, default: &str) -> (r: String)
    ensures
        r@ == text_or(*o, default@),
{
    match o {
        Some(s) => copy_text(s.as_str()),
        None => copy_text(default),
    }
}

fn has_text(s: &str, needle: &str) -> (r: bool)
    ensures
        r == contains_seq(s@, needle@),
{
    let a = chars_of(s);
    let b = chars_of(needle);
    contains_chars(a.as_slice(), b.as_slice())
}

/// Whether an advertised stream is one Sleipnir can mirror from.
pub fn is_muninn_fast_hid_stream(stream: &HidInputStream, stream_id: &str, endpoint: &str) -> (r:
    bool)
    ensures
        r == fast_hid_stream(*stream, stream_id@, endpoint@),
{
    let schema_ok = match &stream.schema {
        Some(s) => str_eq(s.as_str(), "muninn.hid_controller_state.v1"),
        None => false,
    };
    if !schema_ok {
        return false;
    }
    if !has_text(stream_id, ":hid-controller-state") || has_text(stream_id, "move-evidence") {
        return false;
    }
    if !endpoint_looks_like_socket(endpoint) {
        return false;
    }
    match &stream.transport {
        Some(t) => has_text(t.as_str(), "rudp"),
        None => false,
    }
}

/// The catalog entries an advertisement lists: for each fast Muninn HID
/// stream, its devices that have an id, under the advertisement's host.
pub fn available_hid_devices_from_advertisement(ad: &HidAdvertisement) -> (r: Vec<AvailableHidDevice>)
    ensures
        devices_view(r@) == advertised_entries(advertised_host(*ad), ad.input_streams@),
{
    proof {
        reveal_strlit("");
    }
    let verse = text_or_default(&ad.verse_id, "");
    let vc = chars_of(verse.as_str());
    let suffix = chars_of(".local");
    let end = strip_suffixes_end(vc.as_slice(), 0, vc.len(), suffix.as_slice());
    assert(vc@.subrange(0, vc@.len() as int) =~= vc@);
    let kept = &vc.as_slice()[0..end];
    assert(kept@ == vc@.subrange(0, end as int));
    let host = string_of(kept);
    let ghost h = advertised_host(*ad);
    assert(host@ == h);
    let streams = &ad.input_streams;
    let mut out: Vec<AvailableHidDevice> = Vec::new();
    let mut i: usize = 0;
    while i < streams.len()
        invariant
            i <= streams@.len(),
            streams@ == ad.input_streams@,
            host@ == h,
            devices_view(out@) == advertised_entries(h, streams@.subrange(0, i as int)),
        decreases streams@.len() - i,
    {
        proof {
            reveal_strlit("");
        }
        let st = &streams[i];
        assert(streams@.subrange(0, i + 1).last() == *st);
        let endpoint = text_or_default(&st.address, "");
        let stream_id = text_or_default(&st.stream_id, "muninn:hid");
        assert(streams@.subrange(0, i + 1).drop_last() =~= streams@.subrange(0, i as int));
        if is_muninn_fast_hid_stream(st, stream_id.as_str(), endpoint.as_str()) {
            let ghost base = devices_view(out@);
            let devs = &st.devices;
            let mut j: usize = 0;
            assert(devs@.subrange(0, 0) =~= Seq::<HidStreamDevice>::empty());
            assert(base + Seq::<DeviceView>::empty() =~= base);
            while j < devs.len()
                invariant
                    j <= devs@.len(),
                    devs@ == st.devices@,
                    host@ == h,
                    devices_view(out@) == base + stream_entries(
                        h,
                        stream_id@,
                        endpoint@,
                        devs@.subrange(0, j as int),
                    ),
                decreases devs@.len() - j,
            {
                proof {
                    reveal_strlit("");
                }
                let d = &devs[j];
                let id = text_or_default(&d.device_id, "");
                assert(devs@.subrange(0, j + 1).drop_last() =~= devs@.subrange(0, j as int));
                assert(devs@.subrange(0, j + 1).last() == *d);
                if id.as_str().unicode_len() != 0 {
                    let ghost prev = out@;
                    let device = AvailableHidDevice {
                        device_id: id,
                        device_kind: text_or_default(&d.device_kind, "hid"),
                        source_path: text_or_default(&d.source_path, ""),
                        stream_id: copy_text(stream_id.as_str()),
                        host_id: copy_text(host.as_str()),
                        endpoint: copy_text(endpoint.as_str()),
                    };
                    let ghost before_entries = stream_entries(
                        h,
                        stream_id@,
                        endpoint@,
                        devs@.subrange(0, j as int),
                    );
                    assert(device_view(device) == (
                        text_or(d.device_id, Seq::empty()),
                        text_or(d.device_kind, "hid"@),
                        text_or(d.source_path, Seq::empty()),
                        stream_id@,
                        h,
                        endpoint@,
                    ));
                    assert(stream_entries(h, stream_id@, endpoint@, devs@.subrange(0, j + 1))
                        == before_entries.push(device_view(device)));
                    out.push(device);
                    assert(devices_view(out@) =~= devices_view(prev).push(device_view(device)));
                    assert(base + before_entries.push(device_view(device)) =~= (base
                        + before_entries).push(device_view(device)));
                    assert(devices_view(out@) =~= base + stream_entries(
                        h,
                        stream_id@,
                        endpoint@,
                        devs@.subrange(0, j + 1),
                    ));
                }
                j = j + 1;
            }
            assert(devs@.subrange(0, j as int) =~= devs@);
            assert(devices_view(out@) =~= advertised_entries(h, streams@.subrange(0, i + 1)));
        }
        i = i + 1;
    }
    assert(streams@.subrange(0, i as int) =~= streams@);
    out
}


/// A device answers a lookup: on the hinted host (ASCII case aside), and
/// on the wanted stream, or, failing that, named by the filter: its id,
/// kind or stream id, or a part of its source path.
pub open spec fn device_answers(
    d: DeviceView,
    hint: Option<Seq<char>>,
    stream_id: Option<Seq<char>>,
    filter: Option<Seq<char>>,
) -> bool {
    &&& match hint {
        Some(h) => eq_ignore_ascii_case(d.4, h),
        None => true,
    }
    &&& (match stream_id {
        Some(s) => d.3 == s,
        None => true,
    } || match filter {
        Some(f) => d.0 == f || d.1 == f || d.3 == f || contains_seq(d.2, f),
        None => false,
    })
}

/// The endpoint of the first entry of `devs` that answers.
pub open spec fn first_answer(
    devs: Seq<DeviceView>,
    hint: Option<Seq<char>>,
    stream_id: Option<Seq<char>>,
    filter: Option<Seq<char>>,
) -> Option<Seq<char>>
    decreases devs.len(),
{
    if devs.len() == 0 {
        None
    } else if device_answers(devs[0], hint, stream_id, filter) {
        Some(devs[0].5)
    } else {
        first_answer(devs.drop_first(), hint, stream_id, filter)
    }
}

/// A device filter as a lookup uses it: trimmed, and only when something
/// is left.
pub open spec fn lookup_filter(f: Option<Seq<char>>) -> Option<Seq<char>> {
    match f {
        Some(t) => if trim(t).len() > 0 {
            Some(trim(t))
        } else {
            None
        },
        None => None,
    }
}

pub open spec fn opt_str(o: Option<&str>) -> Option<Seq<char>> {
    match o {
        Some(s) => Some(s@),
        None => None,
    }
}

/// The endpoint an advertisement offers for a device filter and a stream id.
pub open spec fn advertised_endpoint(
    ad: HidAdvertisement,
    device_filter: Option<Seq<char>>,
    stream_id: Option<Seq<char>>,
) -> Option<Seq<char>> {
    first_answer(
        advertised_entries(advertised_host(ad), ad.input_streams@),
        host_hint_of(stream_id),
        stream_id,
        lookup_filter(device_filter),
    )
}

fn same_ignoring_ascii_case(a: &str, b: &str) -> (r: bool)
    ensures
        r == eq_ignore_ascii_case(a@, b@),
{
    let ac = chars_of(a);
    let bc = chars_of(b);
    let al = lowercase_chars(ac.as_slice());
    let bl = lowercase_chars(bc.as_slice());
    chars_eq(al.as_slice(), bl.as_slice())
}

fn answers(
    d: &AvailableHidDevice,
    hint: &Option<String>,
    stream_id: Option<&str>,
    filter: &Option<String>,
) -> (r: bool)
    ensures
        r == device_answers(
            device_view(*d),
            match *hint {
                Some(h) => Some(h@),
                None => None,
            },
            opt_str(stream_id),
            match *filter {
                Some(f) => Some(f@),
                None => None,
            },
        ),
{
    let on_host = match hint {
        Some(h) => same_ignoring_ascii_case(d.host_id.as_str(), h.as_str()),
        None => true,
    };
    if !on_host {
        return false;
    }
    let on_stream = match stream_id {
        Some(s) => str_eq(d.stream_id.as_str(), s),
        None => true,
    };
    if on_stream {
        return true;
    }
    match filter {
        Some(f) => {
            str_eq(d.device_id.as_str(), f.as_str()) || str_eq(d.device_kind.as_str(), f.as_str())
                || str_eq(d.stream_id.as_str(), f.as_str()) || has_text(
                d.source_path.as_str(),
                f.as_str(),
            )
        },
        None => false,
    }
}

/// The endpoint of the first device an advertisement lists that is on the
/// host the stream id hints at and is on that stream or named by the
/// (trimmed) device filter.
pub fn matching_provider_advertised_hid_endpoint(
    ad: &HidAdvertisement,
    device_filter: Option<&str>,
    stream_id: Option<&str>,
) -> (r: Option<String>)
    ensures
        match r {
            Some(e) => advertised_endpoint(*ad, opt_str(device_filter), opt_str(stream_id)) == Some(
                e@,
            ),
            None => advertised_endpoint(*ad, opt_str(device_filter), opt_str(stream_id)) is None,
        },
{
    let hint = stream_host_hint(stream_id);
    let ghost hv = host_hint_of(opt_str(stream_id));
    assert(match hint {
        Some(h) => hv == Some(h@),
        None => hv is None,
    });
    let filter: Option<String> = match device_filter {
        Some(f) => {
            let fc = chars_of(f);
            let (a, b) = trim_bounds(fc.as_slice());
            if a < b {
                Some(string_of(&fc.as_slice()[a..b]))
            } else {
                None
            }
        },
        None => None,
    };
    let ghost fv = lookup_filter(opt_str(device_filter));
    assert(match filter {
        Some(f) => fv == Some(f@),
        None => fv is None,
    });
    let devices = available_hid_devices_from_advertisement(ad);
    let ghost dv = devices_view(devices@);
    let mut i: usize = 0;
    assert(dv.subrange(0, dv.len() as int) =~= dv);
    while i < devices.len()
        invariant
            i <= devices@.len(),
            dv == devices_view(devices@),
            dv == advertised_entries(advertised_host(*ad), ad.input_streams@),
            hv == host_hint_of(opt_str(stream_id)),
            fv == lookup_filter(opt_str(device_filter)),
            first_answer(dv, hv, opt_str(stream_id), fv) == first_answer(
                dv.subrange(i as int, dv.len() as int),
                hv,
                opt_str(stream_id),
                fv,
            ),
            match hint {
                Some(h) => hv == Some(h@),
                None => hv is None,
            },
            match filter {
                Some(f) => fv == Some(f@),
                None => fv is None,
            },
        decreases devices@.len() - i,
    {
        let ghost rest = dv.subrange(i as int, dv.len() as int);
        assert(rest[0] == device_view(devices@[i as int]));
        if answers(&devices[i], &hint, stream_id, &filter) {
            assert(device_answers(rest[0], hv, opt_str(stream_id), fv));
            assert(first_answer(rest, hv, opt_str(stream_id), fv) == Some(rest[0].5));
            return Some(copy_text(devices[i].endpoint.as_str()));
        }
        assert(rest.drop_first() =~= dv.subrange(i + 1, dv.len() as int));
        i = i + 1;
    }
    None
}


/// The endpoint the first advertisement with an answer offers.
pub open spec fn first_advertised_endpoint(
    ads: Seq<HidAdvertisement>,
    device_filter: Option<Seq<char>>,
    stream_id: Option<Seq<char>>,
) -> Option<Seq<char>>
    decreases ads.len(),
{
    if ads.len() == 0 {
        None
    } else {
        match advertised_endpoint(ads[0], device_filter, stream_id) {
            Some(e) => Some(e),
            None => first_advertised_endpoint(ads.drop_first(), device_filter, stream_id),
        }
    }
}

/// The endpoint of a device filter and a stream id, from the first
/// advertisement, in the order given, that lists a device answering them.
pub fn discover_available_hid_endpoint(
    ads: &Vec<HidAdvertisement>,
    device_filter: Option<&str>,
    stream_id: Option<&str>,
) -> (r: Option<String>)
    ensures
        match r {
            Some(e) => first_advertised_endpoint(ads@, opt_str(device_filter), opt_str(stream_id))
                == Some(e@),
            None => first_advertised_endpoint(ads@, opt_str(device_filter), opt_str(stream_id)) is None,
        },
{
    let ghost f = opt_str(device_filter);
    let ghost sid = opt_str(stream_id);
    let mut i: usize = 0;
    assert(ads@.subrange(0, ads@.len() as int) =~= ads@);
    while i < ads.len()
        invariant
            i <= ads@.len(),
            f == opt_str(device_filter),
            sid == opt_str(stream_id),
            first_advertised_endpoint(ads@, f, sid) == first_advertised_endpoint(
                ads@.subrange(i as int, ads@.len() as int),
                f,
                sid,
            ),
        decreases ads@.len() - i,
    {
        let ghost rest = ads@.subrange(i as int, ads@.len() as int);
        assert(rest[0] == ads@[i as int]);
        match matching_provider_advertised_hid_endpoint(&ads[i], device_filter, stream_id) {
            Some(e) => {
                return Some(e);
            },
            None => {},
        }
        assert(rest.drop_first() =~= ads@.subrange(i + 1, ads@.len() as int));
        i = i + 1;
    }
    None
}

} // verus!
