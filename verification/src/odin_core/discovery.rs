//! Endpoint discovery over provider advertisements: which advertised
//! socket endpoints answer a query, sorted and without repeats.
use vstd::prelude::*;
use crate::documents::{copy_opt_string, copy_string, opt_view};
use crate::text::{
    chars_lt, chars_of, compare_chars, contains_chars, contains_seq, is_suffix, last_index_of,
    last_index_of_char, lemma_chars_lt_asymmetric, lemma_chars_lt_irreflexive,
    lemma_chars_lt_total, lemma_chars_lt_transitive, lower_seq, lowercase_chars, parse_u16_chars,
    parse_u16_spec, str_eq, string_of, strip_suffixes, strip_suffixes_end, trim, trim_bounds,
    TextOrder,
};

verus! {

/// What an endpoint search asks for; each filter that is `None` is left out.
#[derive(Clone, Debug, Default, PartialEq, Eq)]
pub struct OdinEndpointQuery<'a> {
    pub schema: Option<&'a str>,
    pub transport_contains: Option<&'a str>,
    pub host_hint: Option<&'a str>,
    pub device_filter: Option<&'a str>,
}

/// An advertised socket endpoint that answered a query.
#[derive(Clone, Debug, PartialEq, Eq)]
pub struct OdinEndpointMatch {
    pub address: String,
    pub schema: Option<String>,
    pub transport: Option<String>,
    pub stream_id: Option<String>,
}

/// A device listed under an advertised input stream.
#[derive(Clone, Debug, PartialEq, Eq)]
pub struct AdvertisedDevice {
    pub device_id: Option<String>,
    pub device_kind: Option<String>,
}

/// One entry of a provider's input streams, endpoints or routes: the text
/// fields it carries, each `None` where the advertisement has no text there.
#[derive(Clone, Debug, PartialEq, Eq)]
pub struct AdvertisedEndpoint {
    pub address: Option<String>,
    pub schema: Option<String>,
    pub transport: Option<String>,
    pub stream_id: Option<String>,
    pub devices: Vec<AdvertisedDevice>,
}

/// What endpoint discovery reads of a provider advertisement: the values
/// of its explicit identity fields, and its three lists of entries.
#[derive(Clone, Debug, PartialEq, Eq)]
pub struct ProviderAdvertisement {
    pub identities: Vec<String>,
    pub input_streams: Vec<AdvertisedEndpoint>,
    pub endpoints: Vec<AdvertisedEndpoint>,
    pub routes: Vec<AdvertisedEndpoint>,
}

/// A match as text: address, schema, transport and stream id.
pub type MatchView = (Seq<char>, Option<Seq<char>>, Option<Seq<char>>, Option<Seq<char>>);

impl View for OdinEndpointMatch {
    type V = MatchView;

    open spec fn view(&self) -> MatchView {
        (self.address@, opt_view(self.schema), opt_view(self.transport), opt_view(self.stream_id))
    }
}

/// A query as text.
pub ghost struct QueryView {
    pub schema: Option<Seq<char>>,
    pub transport_contains: Option<Seq<char>>,
    pub host_hint: Option<Seq<char>>,
    pub device_filter: Option<Seq<char>>,
}

pub open spec fn opt_str_view(o: Option<&str>) -> Option<Seq<char>> {
    match o {
        Some(s) => Some(s@),
        None => None,
    }
}

impl<'a> View for OdinEndpointQuery<'a> {
    type V = QueryView;

    open spec fn view(&self) -> QueryView {
        QueryView {
            schema: opt_str_view(self.schema),
            transport_contains: opt_str_view(self.transport_contains),
            host_hint: opt_str_view(self.host_hint),
            device_filter: opt_str_view(self.device_filter),
        }
    }
}

/// `host:port` with a non-blank host and a nonzero `u16` port, split at the
/// last colon.
pub open spec fn socket_like(e: Seq<char>) -> bool {
    match last_index_of(e, ':') {
        Some(i) => trim(e.subrange(0, i)).len() > 0 && match parse_u16_spec(
            e.subrange(i + 1, e.len() as int),
        ) {
            Some(p) => p != 0,
            None => false,
        },
        None => false,
    }
}

/// A host name reduced for comparison: trimmed, every trailing `.local`
/// stripped, ASCII lowercased.
pub open spec fn host_fragment(s: Seq<char>) -> Seq<char> {
    lower_seq(strip_suffixes(trim(s), ".local"@))
}

pub open spec fn device_matches(d: AdvertisedDevice, f: Seq<char>) -> bool {
    opt_view(d.device_id) == Some(f) || opt_view(d.device_kind) == Some(f)
}

/// An input stream passes a device filter by its stream id containing the
/// filter, or by a device whose id or kind is the filter.
pub open spec fn stream_matches_filter(e: AdvertisedEndpoint, f: Seq<char>) -> bool {
    ||| (e.stream_id matches Some(s) && contains_seq(s@, f))
    ||| exists|i: int| 0 <= i < e.devices@.len() && device_matches(#[trigger] e.devices@[i], f)
}

pub open spec fn text_or_empty(o: Option<String>) -> Seq<char> {
    match o {
        Some(s) => s@,
        None => Seq::empty(),
    }
}

/// The match an entry gives for a query, if it passes every filter and
/// its address is socket-like.
pub open spec fn entry_match(e: AdvertisedEndpoint, q: QueryView, allow_device_filter: bool) -> Option<
    MatchView,
> {
    if q.schema matches Some(w) && opt_view(e.schema) != Some(w) {
        None
    } else if q.transport_contains matches Some(w) && !contains_seq(
        lower_seq(text_or_empty(e.transport)),
        lower_seq(w),
    ) {
        None
    } else if q.device_filter matches Some(f) && allow_device_filter && !stream_matches_filter(e, f) {
        None
    } else {
        match e.address {
            Some(a) => if socket_like(a@) {
                Some((a@, opt_view(e.schema), opt_view(e.transport), opt_view(e.stream_id)))
            } else {
                None
            },
            None => None,
        }
    }
}

/// The matches of a list of entries, in list order.
pub open spec fn entry_matches(es: Seq<AdvertisedEndpoint>, q: QueryView, allow_device_filter: bool) -> Seq<
    MatchView,
>
    decreases es.len(),
{
    if es.len() == 0 {
        Seq::empty()
    } else {
        let rest = entry_matches(es.drop_last(), q, allow_device_filter);
        match entry_match(es.last(), q, allow_device_filter) {
            Some(m) => rest.push(m),
            None => rest,
        }
    }
}

/// A provider answers a host hint when the reduced hint is empty or is
/// contained in one of its reduced identities.
pub open spec fn host_hint_matches(p: ProviderAdvertisement, hint: Seq<char>) -> bool {
    let n = host_fragment(hint);
    ||| n.len() == 0
    ||| exists|i: int|
        0 <= i < p.identities@.len() && contains_seq(host_fragment(#[trigger] p.identities@[i]@), n)
}

/// The matches of one provider: none when it fails the host hint, else
/// those of its input streams (where the device filter applies), then its
/// endpoints, then its routes.
pub open spec fn provider_matches(p: ProviderAdvertisement, q: QueryView) -> Seq<MatchView> {
    if q.host_hint matches Some(h) && !host_hint_matches(p, h) {
        Seq::empty()
    } else {
        entry_matches(p.input_streams@, q, true) + entry_matches(p.endpoints@, q, false)
            + entry_matches(p.routes@, q, false)
    }
}

pub open spec fn all_provider_matches(ps: Seq<ProviderAdvertisement>, q: QueryView) -> Seq<MatchView>
    decreases ps.len(),
{
    if ps.len() == 0 {
        Seq::empty()
    } else {
        all_provider_matches(ps.drop_last(), q) + provider_matches(ps.last(), q)
    }
}

/// `v` is `old` followed by matches whose views are `added`.
pub open spec fn extends_with(
    old: Seq<OdinEndpointMatch>,
    v: Seq<OdinEndpointMatch>,
    added: Seq<MatchView>,
) -> bool {
    &&& v.len() == old.len() + added.len()
    &&& forall|i: int| 0 <= i < old.len() ==> v[i] == old[i]
    &&& forall|i: int| 0 <= i < added.len() ==> (#[trigger] v[old.len() + i])@ == added[i]
}

pub open spec fn opt_text_lt(a: Option<Seq<char>>, b: Option<Seq<char>>) -> bool {
    match (a, b) {
        (None, Some(_)) => true,
        (Some(x), Some(y)) => chars_lt(x, y),
        _ => false,
    }
}

/// The order in which matches are listed: by address, then schema, then
/// transport, then stream id, an absent field before any present one.
pub open spec fn match_lt(a: MatchView, b: MatchView) -> bool {
    ||| chars_lt(a.0, b.0)
    ||| a.0 == b.0 && opt_text_lt(a.1, b.1)
    ||| a.0 == b.0 && a.1 == b.1 && opt_text_lt(a.2, b.2)
    ||| a.0 == b.0 && a.1 == b.1 && a.2 == b.2 && opt_text_lt(a.3, b.3)
}

pub open spec fn strictly_sorted(s: Seq<OdinEndpointMatch>) -> bool {
    forall|i: int, j: int| 0 <= i < j < s.len() ==> match_lt(#[trigger] s[i]@, #[trigger] s[j]@)
}

pub open spec fn has_view(s: Seq<OdinEndpointMatch>, x: MatchView) -> bool {
    exists|i: int| 0 <= i < s.len() && (#[trigger] s[i])@ == x
}

proof fn lemma_opt_text_lt(a: Option<Seq<char>>, b: Option<Seq<char>>, c: Option<Seq<char>>)
    ensures
        !opt_text_lt(a, a),
        opt_text_lt(a, b) ==> !opt_text_lt(b, a),
        opt_text_lt(a, b) || a == b || opt_text_lt(b, a),
        opt_text_lt(a, b) && opt_text_lt(b, c) ==> opt_text_lt(a, c),
{
    match a {
        Some(x) => {
            lemma_chars_lt_irreflexive(x);
            match b {
                Some(y) => {
                    lemma_chars_lt_asymmetric(x, y);
                    lemma_chars_lt_total(x, y);
                    match c {
                        Some(z) => if chars_lt(x, y) && chars_lt(y, z) {
                            lemma_chars_lt_transitive(x, y, z);
                        },
                        None => {},
                    }
                },
                None => {},
            }
        },
        None => {},
    }
}

proof fn lemma_match_lt(a: MatchView, b: MatchView, c: MatchView)
    ensures
        !match_lt(a, a),
        match_lt(a, b) ==> !match_lt(b, a),
        match_lt(a, b) || a == b || match_lt(b, a),
        match_lt(a, b) && match_lt(b, c) ==> match_lt(a, c),
{
    lemma_chars_lt_irreflexive(a.0);
    lemma_chars_lt_asymmetric(a.0, b.0);
    lemma_chars_lt_total(a.0, b.0);
    if chars_lt(a.0, b.0) && chars_lt(b.0, c.0) {
        lemma_chars_lt_transitive(a.0, b.0, c.0);
    }
    lemma_chars_lt_asymmetric(b.0, c.0);
    lemma_chars_lt_asymmetric(a.0, c.0);
    lemma_chars_lt_irreflexive(b.0);
    lemma_opt_text_lt(a.1, b.1, c.1);
    lemma_opt_text_lt(a.2, b.2, c.2);
    lemma_opt_text_lt(a.3, b.3, c.3);
    lemma_opt_text_lt(b.1, a.1, c.1);
    lemma_opt_text_lt(b.2, a.2, c.2);
    lemma_opt_text_lt(b.3, a.3, c.3);
    lemma_opt_text_lt(b.1, c.1, a.1);
    lemma_opt_text_lt(b.2, c.2, a.2);
    lemma_opt_text_lt(b.3, c.3, a.3);
}

/// Whether an endpoint is `host:port` with a non-blank host and a nonzero
/// port.
pub fn endpoint_looks_like_socket(endpoint: &str) -> (r: bool)
    ensures
        r == socket_like(endpoint@),
{
    let v = chars_of(endpoint);
    match last_index_of_char(v.as_slice(), ':') {
        Some(i) => {
            let host = &v.as_slice()[0..i];
            assert(host@ == v@.subrange(0, i as int));
            let (a, b) = trim_bounds(host);
            if a == b {
                return false;
            }
            assert(i < v.len());
            match parse_u16_chars(v.as_slice(), i + 1, v.len()) {
                Some(p) => p != 0,
                None => false,
            }
        },
        None => false,
    }
}

fn host_fragment_chars(value: &str) -> (r: Vec<char>)
    ensures
        r@ == host_fragment(value@),
{
    let v = chars_of(value);
    let (a, b) = trim_bounds(v.as_slice());
    let suffix = chars_of(".local");
    let e = strip_suffixes_end(v.as_slice(), a, b, suffix.as_slice());
    let kept = &v.as_slice()[a..e];
    assert(kept@ == v@.subrange(a as int, e as int));
    lowercase_chars(kept)
}

/// A host name reduced for comparison: trimmed, trailing `.local` stripped,
/// ASCII lowercased.
pub fn normalized_host_fragment(value: &str) -> (r: String)
    ensures
        r@ == host_fragment(value@),
{
    let v = host_fragment_chars(value);
    string_of(v.as_slice())
}

/// Whether a provider answers a host hint.
pub fn provider_matches_host_hint(value: &ProviderAdvertisement, host_hint: &str) -> (r: bool)
    ensures
        r == host_hint_matches(*value, host_hint@),
{
    let wanted = host_fragment_chars(host_hint);
    if wanted.len() == 0 {
        return true;
    }
    let mut i: usize = 0;
    while i < value.identities.len()
        invariant
            i <= value.identities@.len(),
            wanted@ == host_fragment(host_hint@),
            forall|k: int|
                0 <= k < i ==> !contains_seq(
                    host_fragment(#[trigger] value.identities@[k]@),
                    wanted@,
                ),
        decreases value.identities@.len() - i,
    {
        let identity = host_fragment_chars(value.identities[i].as_str());
        if contains_chars(identity.as_slice(), wanted.as_slice()) {
            return true;
        }
        i = i + 1;
    }
    false
}

fn opt_text_is(o: &Option<String>, w: &str) -> (r: bool)
    ensures
        r == (opt_view(*o) == Some(w@)),
{
    match o {
        Some(s) => str_eq(s.as_str(), w),
        None => false,
    }
}

/// Whether an input stream passes a device filter.
pub fn input_stream_matches_filter(stream: &AdvertisedEndpoint, filter: &str) -> (r: bool)
    ensures
        r == stream_matches_filter(*stream, filter@),
{
    if let Some(id) = &stream.stream_id {
        let h = chars_of(id.as_str());
        let n = chars_of(filter);
        if contains_chars(h.as_slice(), n.as_slice()) {
            return true;
        }
    }
    let mut i: usize = 0;
    while i < stream.devices.len()
        invariant
            i <= stream.devices@.len(),
            forall|k: int| 0 <= k < i ==> !device_matches(#[trigger] stream.devices@[k], filter@),
        decreases stream.devices@.len() - i,
    {
        let d = &stream.devices[i];
        if opt_text_is(&d.device_id, filter) || opt_text_is(&d.device_kind, filter) {
            return true;
        }
        i = i + 1;
    }
    false
}

/// The match an entry gives for a query, if any.
pub fn endpoint_match_from_entry(
    entry: &AdvertisedEndpoint,
    query: &OdinEndpointQuery<'_>,
    allow_device_filter: bool,
) -> (r: Option<OdinEndpointMatch>)
    ensures
        match r {
            Some(m) => entry_match(*entry, query@, allow_device_filter) == Some(m@),
            None => entry_match(*entry, query@, allow_device_filter) is None,
        },
{
    if let Some(wanted) = query.schema {
        if !opt_text_is(&entry.schema, wanted) {
            return None;
        }
    }
    if let Some(wanted) = query.transport_contains {
        let t = match &entry.transport {
            Some(s) => chars_of(s.as_str()),
            None => Vec::new(),
        };
        assert(t@ == text_or_empty(entry.transport));
        let h = lowercase_chars(t.as_slice());
        let w = chars_of(wanted);
        let n = lowercase_chars(w.as_slice());
        if !contains_chars(h.as_slice(), n.as_slice()) {
            return None;
        }
    }
    if let Some(filter) = query.device_filter {
        if allow_device_filter && !input_stream_matches_filter(entry, filter) {
            return None;
        }
    }
    match &entry.address {
        Some(a) => {
            if !endpoint_looks_like_socket(a.as_str()) {
                return None;
            }
            Some(
                OdinEndpointMatch {
                    address: copy_string(a),
                    schema: copy_opt_string(&entry.schema),
                    transport: copy_opt_string(&entry.transport),
                    stream_id: copy_opt_string(&entry.stream_id),
                },
            )
        },
        None => None,
    }
}

fn collect_entry_matches(
    entries: &Vec<AdvertisedEndpoint>,
    query: &OdinEndpointQuery<'_>,
    allow_device_filter: bool,
    matches: &mut Vec<OdinEndpointMatch>,
)
    ensures
        extends_with(
            old(matches)@,
            final(matches)@,
            entry_matches(entries@, query@, allow_device_filter),
        ),
{
    let ghost start = matches@;
    let mut i: usize = 0;
    while i < entries.len()
        invariant
            i <= entries@.len(),
            extends_with(
                start,
                matches@,
                entry_matches(entries@.subrange(0, i as int), query@, allow_device_filter),
            ),
        decreases entries@.len() - i,
    {
        proof {
            let s = entries@.subrange(0, i + 1);
            assert(s.drop_last() =~= entries@.subrange(0, i as int));
            assert(s.last() == entries@[i as int]);
        }
        match endpoint_match_from_entry(&entries[i], query, allow_device_filter) {
            Some(m) => {
                matches.push(m);
            },
            None => {},
        }
        i = i + 1;
    }
    assert(entries@.subrange(0, i as int) =~= entries@);
}

proof fn lemma_extends_chain(
    a: Seq<OdinEndpointMatch>,
    b: Seq<OdinEndpointMatch>,
    c: Seq<OdinEndpointMatch>,
    x: Seq<MatchView>,
    y: Seq<MatchView>,
)
    requires
        extends_with(a, b, x),
        extends_with(b, c, y),
    ensures
        extends_with(a, c, x + y),
{
    assert forall|i: int| 0 <= i < (x + y).len() implies (#[trigger] c[a.len() + i])@ == (x
        + y)[i] by {
        if i < x.len() {
            assert(c[a.len() + i] == b[a.len() + i]);
        } else {
            assert(c[b.len() + (i - x.len())]@ == y[i - x.len()]);
        }
    }
}

/// Appends the matches one provider gives for a query.
pub fn collect_provider_endpoint_matches(
    value: &ProviderAdvertisement,
    query: &OdinEndpointQuery<'_>,
    matches: &mut Vec<OdinEndpointMatch>,
)
    ensures
        extends_with(old(matches)@, final(matches)@, provider_matches(*value, query@)),
{
    if let Some(hint) = query.host_hint {
        if !provider_matches_host_hint(value, hint) {
            return;
        }
    }
    let ghost m0 = matches@;
    collect_entry_matches(&value.input_streams, query, true, matches);
    let ghost m1 = matches@;
    collect_entry_matches(&value.endpoints, query, false, matches);
    let ghost m2 = matches@;
    collect_entry_matches(&value.routes, query, false, matches);
    proof {
        let q = query@;
        let x = entry_matches(value.input_streams@, q, true);
        let y = entry_matches(value.endpoints@, q, false);
        let z = entry_matches(value.routes@, q, false);
        lemma_extends_chain(m0, m1, m2, x, y);
        lemma_extends_chain(m0, m2, matches@, x + y, z);
    }
}

fn compare_opt_text(a: &Option<String>, b: &Option<String>) -> (r: TextOrder)
    ensures
        (r == TextOrder::Less) == opt_text_lt(opt_view(*a), opt_view(*b)),
        (r == TextOrder::Equal) == (opt_view(*a) == opt_view(*b)),
        (r == TextOrder::Greater) == opt_text_lt(opt_view(*b), opt_view(*a)),
{
    match (a, b) {
        (None, None) => TextOrder::Equal,
        (None, Some(_)) => TextOrder::Less,
        (Some(_), None) => TextOrder::Greater,
        (Some(x), Some(y)) => {
            let u = chars_of(x.as_str());
            let v = chars_of(y.as_str());
            compare_chars(u.as_slice(), v.as_slice())
        },
    }
}

fn compare_matches(a: &OdinEndpointMatch, b: &OdinEndpointMatch) -> (r: TextOrder)
    ensures
        (r == TextOrder::Less) == match_lt(a@, b@),
        (r == TextOrder::Equal) == (a@ == b@),
        (r == TextOrder::Greater) == match_lt(b@, a@),
{
    proof {
        lemma_match_lt(a@, b@, a@);
        lemma_match_lt(b@, a@, b@);
    }
    let u = chars_of(a.address.as_str());
    let v = chars_of(b.address.as_str());
    let c = compare_chars(u.as_slice(), v.as_slice());
    if c != TextOrder::Equal {
        return c;
    }
    let c = compare_opt_text(&a.schema, &b.schema);
    if c != TextOrder::Equal {
        return c;
    }
    let c = compare_opt_text(&a.transport, &b.transport);
    if c != TextOrder::Equal {
        return c;
    }
    compare_opt_text(&a.stream_id, &b.stream_id)
}

fn duplicate_match(m: &OdinEndpointMatch) -> (r: OdinEndpointMatch)
    ensures
        r@ == m@,
{
    OdinEndpointMatch {
        address: copy_string(&m.address),
        schema: copy_opt_string(&m.schema),
        transport: copy_opt_string(&m.transport),
        stream_id: copy_opt_string(&m.stream_id),
    }
}

proof fn lemma_insert_sorted(s: Seq<OdinEndpointMatch>, p: int, x: OdinEndpointMatch)
    requires
        strictly_sorted(s),
        0 <= p <= s.len(),
        forall|j: int| 0 <= j < p ==> match_lt((#[trigger] s[j])@, x@),
        p < s.len() ==> match_lt(x@, s[p]@),
    ensures
        strictly_sorted(s.insert(p, x)),
{
    let t = s.insert(p, x);
    assert forall|i: int, j: int| 0 <= i < j < t.len() implies match_lt(
        #[trigger] t[i]@,
        #[trigger] t[j]@,
    ) by {
        if j < p {
        } else if i < p && j == p {
        } else if i < p && j > p {
            assert(t[j] == s[j - 1]);
        } else if i == p {
            assert(t[j] == s[j - 1]);
            if j - 1 > p {
                assert(match_lt(s[p]@, s[j - 1]@));
                lemma_match_lt(x@, s[p]@, s[j - 1]@);
            }
        } else {
            assert(t[i] == s[i - 1]);
            assert(t[j] == s[j - 1]);
        }
    }
}

/// The matches sorted by address, schema, transport and stream id (an
/// absent field first), each distinct match once.
pub fn dedupe_endpoint_matches(matches: Vec<OdinEndpointMatch>) -> (r: Vec<OdinEndpointMatch>)
    ensures
        strictly_sorted(r@),
        forall|x: MatchView| has_view(r@, x) == has_view(matches@, x),
{
    let mut out: Vec<OdinEndpointMatch> = Vec::new();
    let mut k: usize = 0;
    while k < matches.len()
        invariant
            k <= matches@.len(),
            strictly_sorted(out@),
            forall|x: MatchView| has_view(out@, x) == has_view(matches@.subrange(0, k as int), x),
        decreases matches@.len() - k,
    {
        let m = &matches[k];
        let mut p: usize = 0;
        while p < out.len() && compare_matches(&out[p], m) == TextOrder::Less
            invariant
                p <= out@.len(),
                forall|j: int| 0 <= j < p ==> match_lt((#[trigger] out@[j])@, m@),
            decreases out@.len() - p,
        {
            p = p + 1;
        }
        let ghost before = out@;
        let ghost pre = matches@.subrange(0, k as int);
        let ghost post = matches@.subrange(0, k + 1);
        assert(post =~= pre.push(*m));
        if p < out.len() && compare_matches(&out[p], m) == TextOrder::Equal {
            assert forall|x: MatchView| has_view(out@, x) == has_view(post, x) by {
                if has_view(post, x) {
                    let i = choose|i: int| 0 <= i < post.len() && (#[trigger] post[i])@ == x;
                    if i < k {
                        assert(pre[i] == post[i]);
                        assert(has_view(pre, x));
                    }
                }
                if has_view(pre, x) {
                    let i = choose|i: int| 0 <= i < pre.len() && (#[trigger] pre[i])@ == x;
                    assert(post[i] == pre[i]);
                }
            }
        } else {
            proof {
                if p < out@.len() {
                    lemma_match_lt(m@, out@[p as int]@, m@);
                }
                lemma_insert_sorted(out@, p as int, *m);
            }
            let d = duplicate_match(m);
            out.insert(p, d);
            proof {
                lemma_insert_sorted(before, p as int, d);
                assert(out@ == before.insert(p as int, d));
                assert forall|x: MatchView| has_view(out@, x) == has_view(post, x) by {
                    if has_view(post, x) {
                        let i = choose|i: int| 0 <= i < post.len() && (#[trigger] post[i])@ == x;
                        if i < k {
                            assert(pre[i] == post[i]);
                            assert(has_view(pre, x));
                            assert(has_view(before, x));
                            let j = choose|j: int| 0 <= j < before.len() && (#[trigger] before[j])@ == x;
                            if j < p {
                                assert(out@[j] == before[j]);
                            } else {
                                assert(out@[j + 1] == before[j]);
                            }
                        } else {
                            assert(out@[p as int] == d);
                        }
                    }
                    if has_view(out@, x) {
                        let j = choose|j: int| 0 <= j < out@.len() && (#[trigger] out@[j])@ == x;
                        if j < p {
                            assert(out@[j] == before[j]);
                            assert(has_view(before, x));
                            assert(has_view(pre, x));
                            let i = choose|i: int| 0 <= i < pre.len() && (#[trigger] pre[i])@ == x;
                            assert(post[i] == pre[i]);
                        } else if j == p {
                            assert(post[k as int] == *m);
                        } else {
                            assert(out@[j] == before[j - 1]);
                            assert(has_view(before, x));
                            assert(has_view(pre, x));
                            let i = choose|i: int| 0 <= i < pre.len() && (#[trigger] pre[i])@ == x;
                            assert(post[i] == pre[i]);
                        }
                    }
                }
            }
        }
        k = k + 1;
    }
    assert(matches@.subrange(0, k as int) =~= matches@);
    out
}

/// Every advertised socket endpoint of the providers that answers the
/// query, sorted as `dedupe_endpoint_matches` sorts and each once.
pub fn discover_provider_endpoints(
    providers: &Vec<ProviderAdvertisement>,
    query: OdinEndpointQuery<'_>,
) -> (r: Vec<OdinEndpointMatch>)
    ensures
        discovered(providers@, query@, r@),
{
    let mut all: Vec<OdinEndpointMatch> = Vec::new();
    let mut i: usize = 0;
    while i < providers.len()
        invariant
            i <= providers@.len(),
            extends_with(
                Seq::empty(),
                all@,
                all_provider_matches(providers@.subrange(0, i as int), query@),
            ),
        decreases providers@.len() - i,
    {
        let ghost before = all@;
        collect_provider_endpoint_matches(&providers[i], &query, &mut all);
        proof {
            let s = providers@.subrange(0, i + 1);
            assert(s.drop_last() =~= providers@.subrange(0, i as int));
            assert(s.last() == providers@[i as int]);
            lemma_extends_chain(
                Seq::empty(),
                before,
                all@,
                all_provider_matches(providers@.subrange(0, i as int), query@),
                provider_matches(providers@[i as int], query@),
            );
        }
        i = i + 1;
    }
    let ghost everything = all_provider_matches(providers@, query@);
    assert(providers@.subrange(0, i as int) =~= providers@);
    let ghost collected = all@;
    let r = dedupe_endpoint_matches(all);
    assert forall|x: MatchView| has_view(collected, x) == everything.contains(x) by {
        if has_view(collected, x) {
            let j = choose|j: int| 0 <= j < collected.len() && (#[trigger] collected[j])@ == x;
            assert(collected[0 + j]@ == everything[j]);
        }
        if everything.contains(x) {
            let j = choose|j: int| 0 <= j < everything.len() && everything[j] == x;
            assert(collected[0 + j]@ == everything[j]);
        }
    }
    r
}

/// What discovery over `providers` returns for query `q`, as its contract
/// states it: the matches of all providers, sorted, each once.
pub open spec fn discovered(
    providers: Seq<ProviderAdvertisement>,
    q: QueryView,
    r: Seq<OdinEndpointMatch>,
) -> bool {
    &&& strictly_sorted(r)
    &&& forall|x: MatchView| has_view(r, x) == all_provider_matches(providers, q).contains(x)
}

pub open spec fn match_views(r: Seq<OdinEndpointMatch>) -> Seq<MatchView> {
    r.map_values(|m: OdinEndpointMatch| m@)
}

pub open spec fn sorted_views(s: Seq<MatchView>) -> bool {
    forall|i: int, j: int| 0 <= i < j < s.len() ==> match_lt(#[trigger] s[i], #[trigger] s[j])
}

proof fn lemma_sorted_views_unique(a: Seq<MatchView>, b: Seq<MatchView>)
    requires
        sorted_views(a),
        sorted_views(b),
        forall|x: MatchView| a.contains(x) == b.contains(x),
    ensures
        a == b,
    decreases a.len(),
{
    if a.len() == 0 {
        if b.len() > 0 {
            assert(b.contains(b[0]));
        }
        assert(a =~= b);
    } else if b.len() == 0 {
        assert(a.contains(a[0]));
    } else {
        assert(a.contains(a[0]));
        assert(b.contains(b[0]));
        let j = choose|j: int| 0 <= j < b.len() && b[j] == a[0];
        let i = choose|i: int| 0 <= i < a.len() && a[i] == b[0];
        if i > 0 && j > 0 {
            assert(match_lt(a[0], a[i]));
            assert(match_lt(b[0], b[j]));
            lemma_match_lt(a[0], b[0], a[0]);
        }
        assert(a[0] == b[0]);
        let a1 = a.drop_first();
        let b1 = b.drop_first();
        assert forall|x: MatchView| a1.contains(x) == b1.contains(x) by {
            if a1.contains(x) {
                let k = choose|k: int| 0 <= k < a1.len() && a1[k] == x;
                assert(a[k + 1] == x);
                assert(match_lt(a[0], a[k + 1]));
                lemma_match_lt(a[0], a[0], a[0]);
                assert(a.contains(x));
                let m = choose|m: int| 0 <= m < b.len() && b[m] == x;
                assert(m != 0);
                assert(b1[m - 1] == x);
            }
            if b1.contains(x) {
                let k = choose|k: int| 0 <= k < b1.len() && b1[k] == x;
                assert(b[k + 1] == x);
                assert(match_lt(b[0], b[k + 1]));
                lemma_match_lt(b[0], b[0], b[0]);
                assert(b.contains(x));
                let m = choose|m: int| 0 <= m < a.len() && a[m] == x;
                assert(m != 0);
                assert(a1[m - 1] == x);
            }
        }
        lemma_sorted_views_unique(a1, b1);
        assert(a =~= b) by {
            assert forall|k: int| 0 <= k < a.len() implies a[k] == b[k] by {
                if k > 0 {
                    assert(a[k] == a1[k - 1]);
                    assert(b[k] == b1[k - 1]);
                }
            }
        }
    }
}

proof fn lemma_all_matches_contains(ps: Seq<ProviderAdvertisement>, q: QueryView, x: MatchView)
    ensures
        all_provider_matches(ps, q).contains(x) <==> exists|i: int|
            0 <= i < ps.len() && #[trigger] provider_matches(ps[i], q).contains(x),
    decreases ps.len(),
{
    if ps.len() > 0 {
        let front = ps.drop_last();
        lemma_all_matches_contains(front, q, x);
        let a = all_provider_matches(front, q);
        let b = provider_matches(ps.last(), q);
        let all = a + b;
        if all.contains(x) {
            let k = choose|k: int| 0 <= k < all.len() && all[k] == x;
            if k < a.len() {
                assert(a[k] == x);
                assert(a.contains(x));
                let i = choose|i: int| 0 <= i < front.len() && #[trigger] provider_matches(front[i], q).contains(x);
                assert(ps[i] == front[i]);
            } else {
                assert(b[k - a.len()] == x);
                assert(provider_matches(ps[ps.len() - 1], q).contains(x));
            }
        }
        if exists|i: int| 0 <= i < ps.len() && #[trigger] provider_matches(ps[i], q).contains(x) {
            let i = choose|i: int| 0 <= i < ps.len() && #[trigger] provider_matches(ps[i], q).contains(x);
            if i < front.len() {
                assert(front[i] == ps[i]);
                assert(a.contains(x));
                let k = choose|k: int| 0 <= k < a.len() && a[k] == x;
                assert(all[k] == x);
            } else {
                let k = choose|k: int| 0 <= k < b.len() && b[k] == x;
                assert(all[a.len() + k] == x);
            }
        }
    }
}

/// Discovery does not depend on the order in which the providers come, nor
/// on how often one comes: over the same providers, two discoveries give
/// the same matches in the same order.
pub proof fn law_discovery_ignores_provider_order(
    first: Seq<ProviderAdvertisement>,
    second: Seq<ProviderAdvertisement>,
    q: QueryView,
    r1: Seq<OdinEndpointMatch>,
    r2: Seq<OdinEndpointMatch>,
)
    requires
        forall|p: ProviderAdvertisement| first.contains(p) == second.contains(p),
        discovered(first, q, r1),
        discovered(second, q, r2),
    ensures
        match_views(r1) == match_views(r2),
{
    let v1 = match_views(r1);
    let v2 = match_views(r2);
    assert forall|x: MatchView| v1.contains(x) == v2.contains(x) by {
        lemma_all_matches_contains(first, q, x);
        lemma_all_matches_contains(second, q, x);
        if v1.contains(x) {
            let k = choose|k: int| 0 <= k < v1.len() && v1[k] == x;
            assert(r1[k]@ == x);
            assert(has_view(r1, x));
            let i = choose|i: int| 0 <= i < first.len() && #[trigger] provider_matches(first[i], q).contains(x);
            assert(first.contains(first[i]));
            let j = choose|j: int| 0 <= j < second.len() && second[j] == first[i];
            assert(provider_matches(second[j], q).contains(x));
            assert(has_view(r2, x));
            let m = choose|m: int| 0 <= m < r2.len() && (#[trigger] r2[m])@ == x;
            assert(v2[m] == x);
        }
        if v2.contains(x) {
            let k = choose|k: int| 0 <= k < v2.len() && v2[k] == x;
            assert(r2[k]@ == x);
            assert(has_view(r2, x));
            let i = choose|i: int| 0 <= i < second.len() && #[trigger] provider_matches(second[i], q).contains(x);
            assert(second.contains(second[i]));
            let j = choose|j: int| 0 <= j < first.len() && first[j] == second[i];
            assert(provider_matches(first[j], q).contains(x));
            assert(has_view(r1, x));
            let m = choose|m: int| 0 <= m < r1.len() && (#[trigger] r1[m])@ == x;
            assert(v1[m] == x);
        }
    }
    assert(sorted_views(v1)) by {
        assert forall|i: int, j: int| 0 <= i < j < v1.len() implies match_lt(#[trigger] v1[i], #[trigger] v1[j]) by {
            assert(match_lt(r1[i]@, r1[j]@));
        }
    }
    assert(sorted_views(v2)) by {
        assert forall|i: int, j: int| 0 <= i < j < v2.len() implies match_lt(#[trigger] v2[i], #[trigger] v2[j]) by {
            assert(match_lt(r2[i]@, r2[j]@));
        }
    }
    lemma_sorted_views_unique(v1, v2);
}


proof fn lemma_entry_matches_contains(es: Seq<AdvertisedEndpoint>, q: QueryView, allow: bool, k: int, m: MatchView)
    requires
        0 <= k < es.len(),
        entry_match(es[k], q, allow) == Some(m),
    ensures
        entry_matches(es, q, allow).contains(m),
    decreases es.len(),
{
    let rest = entry_matches(es.drop_last(), q, allow);
    if k == es.len() - 1 {
        assert(es.last() == es[k]);
        let all = rest.push(m);
        assert(all[rest.len() as int] == m);
    } else {
        assert(es.drop_last()[k] == es[k]);
        lemma_entry_matches_contains(es.drop_last(), q, allow, k, m);
        let j = choose|j: int| 0 <= j < rest.len() && rest[j] == m;
        let all = entry_matches(es, q, allow);
        match entry_match(es.last(), q, allow) {
            Some(x) => assert(all[j] == m),
            None => assert(all[j] == m),
        }
    }
}

/// A device filter passes an input stream that lists a device of that
/// kind (or with that id): a socket-like input stream of a provider that
/// answers the query, with such a device, is among the endpoints
/// discovered.
pub proof fn law_device_filter_matches_device_kind_or_id(
    ps: Seq<ProviderAdvertisement>,
    q: QueryView,
    r: Seq<OdinEndpointMatch>,
    pi: int,
    ei: int,
    di: int,
)
    requires
        discovered(ps, q, r),
        0 <= pi < ps.len(),
        0 <= ei < ps[pi].input_streams@.len(),
        0 <= di < ps[pi].input_streams@[ei].devices@.len(),
        q.host_hint is None,
        q.schema is None || opt_view(ps[pi].input_streams@[ei].schema) == q.schema,
        q.transport_contains is None || contains_seq(
            lower_seq(text_or_empty(ps[pi].input_streams@[ei].transport)),
            lower_seq(q.transport_contains->0),
        ),
        q.device_filter is Some,
        opt_view(ps[pi].input_streams@[ei].devices@[di].device_kind) == q.device_filter
            || opt_view(ps[pi].input_streams@[ei].devices@[di].device_id) == q.device_filter,
        ps[pi].input_streams@[ei].address is Some,
        socket_like(ps[pi].input_streams@[ei].address->0@),
    ensures
        ({
            let e = ps[pi].input_streams@[ei];
            has_view(r, (e.address->0@, opt_view(e.schema), opt_view(e.transport), opt_view(e.stream_id)))
        }),
{
    let p = ps[pi];
    let e = p.input_streams@[ei];
    let f = q.device_filter->0;
    let m = (e.address->0@, opt_view(e.schema), opt_view(e.transport), opt_view(e.stream_id));
    assert(device_matches(e.devices@[di], f));
    assert(stream_matches_filter(e, f));
    assert(entry_match(e, q, true) == Some(m));
    lemma_entry_matches_contains(p.input_streams@, q, true, ei, m);
    let a = entry_matches(p.input_streams@, q, true);
    let pm = provider_matches(p, q);
    let j = choose|j: int| 0 <= j < a.len() && a[j] == m;
    assert(pm[j] == m);
    assert(pm.contains(m));
    lemma_all_matches_contains(ps, q, m);
    assert(all_provider_matches(ps, q).contains(m));
}


/// What every match satisfies: a socket-like address, the queried schema
/// (when one is asked for), and a transport containing the asked fragment
/// (ASCII case ignored).
pub open spec fn answers(q: QueryView, x: MatchView) -> bool {
    &&& socket_like(x.0)
    &&& (q.schema is Some ==> x.1 == q.schema)
    &&& (q.transport_contains is Some ==> contains_seq(
        lower_seq(match x.2 {
            Some(t) => t,
            None => Seq::empty(),
        }),
        lower_seq(q.transport_contains->0),
    ))
}

proof fn lemma_entry_matches_answer(es: Seq<AdvertisedEndpoint>, q: QueryView, allow: bool, x: MatchView)
    requires
        entry_matches(es, q, allow).contains(x),
    ensures
        answers(q, x),
    decreases es.len(),
{
    if es.len() > 0 {
        let rest = entry_matches(es.drop_last(), q, allow);
        let all = entry_matches(es, q, allow);
        let j = choose|j: int| 0 <= j < all.len() && all[j] == x;
        if j < rest.len() {
            assert(rest[j] == x);
            lemma_entry_matches_answer(es.drop_last(), q, allow, x);
        } else {
            let e = es.last();
            assert(entry_match(e, q, allow) == Some(x));
            assert(text_or_empty(e.transport) == match opt_view(e.transport) {
                Some(t) => t,
                None => Seq::<char>::empty(),
            });
        }
    }
}

/// Every endpoint discovery returns answers the query: its address is
/// socket-like, its schema is the one asked for, and its transport holds
/// the asked fragment.
pub proof fn law_discovered_endpoints_answer_the_query(
    ps: Seq<ProviderAdvertisement>,
    q: QueryView,
    r: Seq<OdinEndpointMatch>,
)
    requires
        discovered(ps, q, r),
    ensures
        forall|i: int| 0 <= i < r.len() ==> answers(q, #[trigger] r[i]@),
{
    assert forall|i: int| 0 <= i < r.len() implies answers(q, #[trigger] r[i]@) by {
        let x = r[i]@;
        assert(has_view(r, x));
        lemma_all_matches_contains(ps, q, x);
        let pi = choose|pi: int| 0 <= pi < ps.len() && #[trigger] provider_matches(ps[pi], q).contains(x);
        let p = ps[pi];
        let a = entry_matches(p.input_streams@, q, true);
        let b = entry_matches(p.endpoints@, q, false);
        let c = entry_matches(p.routes@, q, false);
        let pm = provider_matches(p, q);
        let k = choose|k: int| 0 <= k < pm.len() && pm[k] == x;
        assert(pm == a + b + c);
        if k < a.len() {
            assert(a[k] == x);
            lemma_entry_matches_answer(p.input_streams@, q, true, x);
        } else if k < a.len() + b.len() {
            assert(b[k - a.len()] == x);
            lemma_entry_matches_answer(p.endpoints@, q, false, x);
        } else {
            assert(c[k - a.len() - b.len()] == x);
            lemma_entry_matches_answer(p.routes@, q, false, x);
        }
    }
}

} // verus!
