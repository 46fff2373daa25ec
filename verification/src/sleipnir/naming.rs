//! Names Sleipnir derives from text: the host that a stream id points at,
//! and the id fragment that a device or a binding target is shown under.
use vstd::prelude::*;
use crate::odin_core::discovery::{host_fragment, normalized_host_fragment};
use crate::text::{
    chars_of, first_index_of, has_text, insert_text_sorted, lower_seq, lowercase_chars, push_str,
    spells, string_of, texts_sorted, trim, trim_bounds,
};

verus! {

/// `s` has something besides white space.
pub open spec fn nonblank(s: Seq<char>) -> bool {
    trim(s).len() > 0
}

pub proof fn lemma_first_index_in_range(s: Seq<char>, c: char)
    ensures
        first_index_of(s, c) matches Some(k) ==> 0 <= k < s.len() && s[k] == c,
    decreases s.len(),
{
    if s.len() > 0 && s[0] != c {
        lemma_first_index_in_range(s.drop_first(), c);
    }
}

proof fn lemma_first_index_at(s: Seq<char>, c: char, k: int)
    requires
        0 <= k <= s.len(),
        forall|i: int| 0 <= i < k ==> s[i] != c,
        k < s.len() ==> s[k] == c,
    ensures
        first_index_of(s, c) == if k < s.len() {
            Some(k)
        } else {
            None::<int>
        },
    decreases k,
{
    if k > 0 {
        lemma_first_index_at(s.drop_first(), c, k - 1);
    }
}

/// The parts of `s` between `:` separators that are not blank, in order.
pub open spec fn nonblank_parts(s: Seq<char>) -> Seq<Seq<char>>
    decreases s.len(),
{
    match first_index_of(s, ':') {
        None => if nonblank(s) {
            seq![s]
        } else {
            Seq::empty()
        },
        Some(k) => {
            proof {
                lemma_first_index_in_range(s, ':');
            }
            let head = s.subrange(0, k);
            let rest = nonblank_parts(s.subrange(k + 1, s.len() as int));
            if nonblank(head) {
                seq![head] + rest
            } else {
                rest
            }
        },
    }
}

/// The host part of a stream id: the part after a leading `muninn`, else
/// the first part.
pub open spec fn stream_host(s: Seq<char>) -> Option<Seq<char>> {
    let p = nonblank_parts(s);
    if p.len() >= 2 && p[0] == "muninn"@ {
        Some(p[1])
    } else if p.len() >= 1 {
        Some(p[0])
    } else {
        None
    }
}

/// The host a stream id hints at, reduced as hosts are compared, unless
/// nothing is left of it.
pub open spec fn host_hint_of(stream_id: Option<Seq<char>>) -> Option<Seq<char>> {
    match stream_id {
        None => None,
        Some(s) => match stream_host(s) {
            None => None,
            Some(h) => if host_fragment(h).len() > 0 {
                Some(host_fragment(h))
            } else {
                None
            },
        },
    }
}

pub open spec fn part_texts(v: Seq<char>, b: Seq<(usize, usize)>) -> Seq<Seq<char>> {
    b.map_values(|x: (usize, usize)| v.subrange(x.0 as int, x.1 as int))
}

pub open spec fn bounds_within(b: Seq<(usize, usize)>, n: int) -> bool {
    forall|k: int| 0 <= k < b.len() ==> #[trigger] b[k].0 <= b[k].1 <= n
}

/// Where the nonblank `:`-separated parts of `v` lie.
fn nonblank_part_bounds(v: &[char]) -> (r: Vec<(usize, usize)>)
    ensures
        bounds_within(r@, v@.len() as int),
        part_texts(v@, r@) == nonblank_parts(v@),
{
    let n = v.len();
    let mut out: Vec<(usize, usize)> = Vec::new();
    let mut p: usize = 0;
    assert(v@.subrange(0, n as int) =~= v@);
    assert(part_texts(v@, out@) =~= Seq::<Seq<char>>::empty());
    loop
        invariant_except_break
            p <= n == v@.len(),
            bounds_within(out@, n as int),
            nonblank_parts(v@) == part_texts(v@, out@) + nonblank_parts(
                v@.subrange(p as int, n as int),
            ),
        ensures
            bounds_within(out@, n as int),
            nonblank_parts(v@) == part_texts(v@, out@),
        decreases n - p,
    {
        let mut k: usize = p;
        while k < n && v[k] != ':'
            invariant
                p <= k <= n == v@.len(),
                forall|i: int| p <= i < k ==> v@[i] != ':',
            decreases n - k,
        {
            k = k + 1;
        }
        let ghost t = v@.subrange(p as int, n as int);
        let ghost head = v@.subrange(p as int, k as int);
        proof {
            lemma_first_index_at(t, ':', k - p);
            assert(t.subrange(0, k - p) =~= head);
            if k < n {
                assert(t.subrange(k - p + 1, t.len() as int) =~= v@.subrange(k + 1, n as int));
            } else {
                assert(t =~= head);
            }
        }
        let (a, b) = trim_bounds(&v[p..k]);
        let ghost before = out@;
        if a < b {
            out.push((p, k));
            assert(part_texts(v@, out@) =~= part_texts(v@, before).push(head));
        }
        if k == n {
            if a < b {
                assert(nonblank_parts(t) =~= seq![head]);
            } else {
                assert(nonblank_parts(t) =~= Seq::<Seq<char>>::empty());
            }
            assert(nonblank_parts(v@) =~= part_texts(v@, out@));
            break;
        }
        let ghost rest = nonblank_parts(v@.subrange(k + 1, n as int));
        if a < b {
            assert(part_texts(v@, before) + (seq![head] + rest) =~= part_texts(v@, out@) + rest);
        }
        p = k + 1;
    }
    out
}

/// The host a stream id hints at: the part after a leading `muninn`, else
/// the first nonblank `:`-separated part, trimmed, with trailing `.local`
/// stripped and ASCII lowercased; `None` when nothing is left.
pub fn stream_host_hint(stream_id: Option<&str>) -> (r: Option<String>)
    ensures
        match r {
            Some(h) => host_hint_of(
                match stream_id {
                    Some(s) => Some(s@),
                    None => None,
                },
            ) == Some(h@),
            None => host_hint_of(
                match stream_id {
                    Some(s) => Some(s@),
                    None => None,
                },
            ) is None,
        },
{
    let s = match stream_id {
        None => { return None; },
        Some(s) => s,
    };
    let v = chars_of(s);
    let parts = nonblank_part_bounds(v.as_slice());
    let ghost texts = part_texts(v@, parts@);
    if parts.len() == 0 {
        return None;
    }
    let first = parts[0];
    assert(texts[0] == v@.subrange(first.0 as int, first.1 as int));
    let host = if parts.len() >= 2 && spells(&v.as_slice()[first.0..first.1], "muninn") {
        let second = parts[1];
        assert(texts[1] == v@.subrange(second.0 as int, second.1 as int));
        second
    } else {
        first
    };
    let h = string_of(&v.as_slice()[host.0..host.1]);
    let normalized = normalized_host_fragment(h.as_str());
    if normalized.as_str().unicode_len() == 0 {
        None
    } else {
        Some(normalized)
    }
}

/// `char::is_ascii_alphanumeric`.
pub open spec fn is_ascii_alphanumeric(c: char) -> bool {
    ('0' <= c && c <= '9') || ('A' <= c && c <= 'Z') || ('a' <= c && c <= 'z')
}

/// Every character that is not an ASCII letter or digit turned into `-`.
pub open spec fn dashed(s: Seq<char>) -> Seq<char> {
    Seq::new(s.len(), |i: int| if is_ascii_alphanumeric(s[i]) { s[i] } else { '-' })
}

/// `s` without leading `-`.
pub open spec fn strip_leading_dashes(s: Seq<char>) -> Seq<char>
    decreases s.len(),
{
    if s.len() > 0 && s[0] == '-' {
        strip_leading_dashes(s.drop_first())
    } else {
        s
    }
}

/// `s` without trailing `-`.
pub open spec fn strip_trailing_dashes(s: Seq<char>) -> Seq<char>
    decreases s.len(),
{
    if s.len() > 0 && s.last() == '-' {
        strip_trailing_dashes(s.drop_last())
    } else {
        s
    }
}

/// The id fragment of a name: ASCII letters and digits kept, everything
/// else turned into `-`, `-` trimmed from both ends, lowercased; `device`
/// when nothing is left.
pub open spec fn stable_id_text(s: Seq<char>) -> Seq<char> {
    let n = lower_seq(strip_trailing_dashes(strip_leading_dashes(dashed(s))));
    if n.len() == 0 {
        "device"@
    } else {
        n
    }
}

/// The id fragment a device id or a binding target is shown under.
pub fn stable_id(value: &str) -> (r: String)
    ensures
        r@ == stable_id_text(value@),
{
    let v = chars_of(value);
    let mut d: Vec<char> = Vec::new();
    let mut i: usize = 0;
    while i < v.len()
        invariant
            i <= v@.len(),
            d@ == dashed(v@.subrange(0, i as int)),
        decreases v@.len() - i,
    {
        let c = v[i];
        let alnum = ('0' <= c && c <= '9') || ('A' <= c && c <= 'Z') || ('a' <= c && c <= 'z');
        d.push(if alnum { c } else { '-' });
        i = i + 1;
        assert(d@ =~= dashed(v@.subrange(0, i as int)));
    }
    assert(v@.subrange(0, i as int) =~= v@);
    let n = d.len();
    let mut a: usize = 0;
    assert(d@.subrange(0, n as int) =~= d@);
    while a < n && d[a] == '-'
        invariant
            a <= n == d@.len(),
            strip_leading_dashes(d@) == strip_leading_dashes(d@.subrange(a as int, n as int)),
        decreases n - a,
    {
        assert(d@.subrange(a as int, n as int).drop_first() =~= d@.subrange(a + 1, n as int));
        a = a + 1;
    }
    let ghost lead = d@.subrange(a as int, n as int);
    assert(strip_leading_dashes(lead) == lead) by {
        if lead.len() > 0 {
            assert(lead[0] == d@[a as int]);
        }
    }
    let mut b: usize = n;
    while b > a && d[b - 1] == '-'
        invariant
            a <= b <= n == d@.len(),
            lead == d@.subrange(a as int, n as int),
            strip_trailing_dashes(lead) == strip_trailing_dashes(d@.subrange(a as int, b as int)),
        decreases b,
    {
        assert(d@.subrange(a as int, b as int).drop_last() =~= d@.subrange(a as int, b - 1));
        b = b - 1;
    }
    let ghost kept = d@.subrange(a as int, b as int);
    assert(strip_trailing_dashes(kept) == kept) by {
        if kept.len() > 0 {
            assert(kept.last() == d@[b - 1]);
        }
    }
    let lowered = lowercase_chars(&d.as_slice()[a..b]);
    if lowered.len() == 0 {
        "device".to_string()
    } else {
        string_of(lowered.as_slice())
    }
}

/// The provider id Sleipnir publishes under on a host.
pub fn sleipnir_provider_id(host_id: &str) -> (r: String)
    ensures
        r@ == "sleipnir.input-mirror."@ + host_id@,
{
    let mut s = "sleipnir.input-mirror.".to_string();
    push_str(&mut s, host_id);
    s
}

/// The daemon id Sleipnir reports its health under on a host.
pub fn sleipnir_daemon_id(host_id: &str) -> (r: String)
    ensures
        r@ == host_id@ + "-sleipnir"@,
{
    let mut s = String::new();
    push_str(&mut s, host_id);
    push_str(&mut s, "-sleipnir");
    s
}

/// The Muninn provider key of a host.
pub open spec fn muninn_provider_key(host_id: Seq<char>) -> Seq<char> {
    "muninn.telemetry."@ + host_id
}

/// The Muninn provider records to ask Odin for: one key per host that
/// HID state was seen from, sorted and each once.
pub fn muninn_provider_keys(host_ids: &Vec<String>) -> (r: Vec<String>)
    ensures
        texts_sorted(r@),
        forall|t: Seq<char>|
            has_text(r@, t) <==> exists|i: int|
                0 <= i < host_ids@.len() && t == muninn_provider_key(#[trigger] host_ids@[i]@),
{
    let mut out: Vec<String> = Vec::new();
    let mut i: usize = 0;
    while i < host_ids.len()
        invariant
            i <= host_ids@.len(),
            texts_sorted(out@),
            forall|t: Seq<char>|
                has_text(out@, t) <==> exists|k: int|
                    0 <= k < i && t == muninn_provider_key(#[trigger] host_ids@[k]@),
        decreases host_ids@.len() - i,
    {
        let mut key = "muninn.telemetry.".to_string();
        push_str(&mut key, host_ids[i].as_str());
        let ghost before = out@;
        insert_text_sorted(&mut out, key);
        assert forall|t: Seq<char>|
            has_text(out@, t) <==> exists|k: int|
                0 <= k < i + 1 && t == muninn_provider_key(#[trigger] host_ids@[k]@) by {
            if exists|k: int| 0 <= k < i + 1 && t == muninn_provider_key(#[trigger] host_ids@[k]@) {
                let k = choose|k: int|
                    0 <= k < i + 1 && t == muninn_provider_key(#[trigger] host_ids@[k]@);
                if k < i {
                    assert(has_text(before, t));
                }
            }
        }
        i = i + 1;
    }
    out
}

} // verus!
