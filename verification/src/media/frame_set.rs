//! Assemblies of several video frames at once, kept in frame key order, with
//! deadline expiry.
use vstd::prelude::*;
use crate::documents::{copy_string, MuninnMediaVideoAccessUnitRecord, VideoChunkView};
use crate::media::annexb::VideoAccessUnit;
use crate::media::assembly::{
    assembly_complete, assembly_wf, first_held, fresh_assembly, held_chunks, insert_fault,
    law_complete_assembly_reassembles, missing_keys, new_assembly_fault, AssemblyView,
    VideoFrameAssembly,
};
use crate::media::error::MediaError;
use crate::media::video::joined_payloads;
use crate::text::{
    chars_lt, chars_of, compare_chars, lemma_chars_lt_asymmetric, lemma_chars_lt_irreflexive,
    lemma_chars_lt_total, lemma_chars_lt_transitive, TextOrder,
};

verus! {

#[derive(Clone, Debug, PartialEq, Eq, PartialOrd, Ord, Hash)]
pub struct VideoFrameKey {
    pub stream_id: String,
    pub session_id: String,
    pub frame_id: u64,
}

pub ghost struct FrameKeyView {
    pub stream_id: Seq<char>,
    pub session_id: Seq<char>,
    pub frame_id: u64,
}

impl View for VideoFrameKey {
    type V = FrameKeyView;

    open spec fn view(&self) -> FrameKeyView {
        FrameKeyView {
            stream_id: self.stream_id@,
            session_id: self.session_id@,
            frame_id: self.frame_id,
        }
    }
}

/// The order of frame keys: by stream, then session, then frame id, as the
/// derived `Ord` compares the fields in turn.
pub open spec fn frame_key_lt(a: FrameKeyView, b: FrameKeyView) -> bool {
    ||| chars_lt(a.stream_id, b.stream_id)
    ||| (a.stream_id == b.stream_id && chars_lt(a.session_id, b.session_id))
    ||| (a.stream_id == b.stream_id && a.session_id == b.session_id && a.frame_id < b.frame_id)
}

pub open spec fn chunk_frame_key(c: VideoChunkView) -> FrameKeyView {
    FrameKeyView { stream_id: c.stream_id, session_id: c.session_id, frame_id: c.frame_id }
}

pub open spec fn assembly_frame_key(a: AssemblyView) -> FrameKeyView {
    FrameKeyView { stream_id: a.stream_id, session_id: a.session_id, frame_id: a.frame_id }
}

proof fn lemma_key_order(a: FrameKeyView, b: FrameKeyView, c: FrameKeyView)
    ensures
        !frame_key_lt(a, a),
        !(frame_key_lt(a, b) && frame_key_lt(b, a)),
        a == b || frame_key_lt(a, b) || frame_key_lt(b, a),
        frame_key_lt(a, b) && frame_key_lt(b, c) ==> frame_key_lt(a, c),
{
    lemma_chars_lt_irreflexive(a.stream_id);
    lemma_chars_lt_irreflexive(a.session_id);
    lemma_chars_lt_asymmetric(a.stream_id, b.stream_id);
    lemma_chars_lt_asymmetric(a.session_id, b.session_id);
    lemma_chars_lt_total(a.stream_id, b.stream_id);
    lemma_chars_lt_total(a.session_id, b.session_id);
    if chars_lt(a.stream_id, b.stream_id) && chars_lt(b.stream_id, c.stream_id) {
        lemma_chars_lt_transitive(a.stream_id, b.stream_id, c.stream_id);
    }
    if chars_lt(a.session_id, b.session_id) && chars_lt(b.session_id, c.session_id) {
        lemma_chars_lt_transitive(a.session_id, b.session_id, c.session_id);
    }
}

impl VideoFrameKey {
    /// The key of the frame a chunk belongs to.
    pub fn from_chunk(chunk: &MuninnMediaVideoAccessUnitRecord) -> (r: Self)
        ensures
            r@ == chunk_frame_key(chunk@),
    {
        VideoFrameKey {
            stream_id: copy_string(&chunk.stream_id),
            session_id: copy_string(&chunk.session_id),
            frame_id: chunk.frame_id,
        }
    }
}

/// Compares two frame keys in `frame_key_lt` order.
pub fn compare_frame_keys(a: &VideoFrameKey, b: &VideoFrameKey) -> (r: TextOrder)
    ensures
        (r == TextOrder::Less) == frame_key_lt(a@, b@),
        (r == TextOrder::Equal) == (a@ == b@),
        (r == TextOrder::Greater) == frame_key_lt(b@, a@),
{
    proof {
        lemma_key_order(a@, b@, a@);
        lemma_key_order(b@, a@, b@);
    }
    let sa = chars_of(a.stream_id.as_str());
    let sb = chars_of(b.stream_id.as_str());
    match compare_chars(sa.as_slice(), sb.as_slice()) {
        TextOrder::Less => TextOrder::Less,
        TextOrder::Greater => TextOrder::Greater,
        TextOrder::Equal => {
            let ea = chars_of(a.session_id.as_str());
            let eb = chars_of(b.session_id.as_str());
            match compare_chars(ea.as_slice(), eb.as_slice()) {
                TextOrder::Less => TextOrder::Less,
                TextOrder::Greater => TextOrder::Greater,
                TextOrder::Equal => {
                    if a.frame_id < b.frame_id {
                        TextOrder::Less
                    } else if a.frame_id == b.frame_id {
                        TextOrder::Equal
                    } else {
                        TextOrder::Greater
                    }
                },
            }
        },
    }
}

/// A frame that passed its deadline before all its chunks arrived.
#[derive(Clone, Debug, PartialEq, Eq)]
pub struct ExpiredVideoFrame {
    pub key: VideoFrameKey,
    pub deadline_ticks: i64,
    pub missing_video_chunk_keys: Vec<String>,
    pub decode_chain_invalidated: bool,
}

pub ghost struct ExpiredFrameView {
    pub key: FrameKeyView,
    pub deadline_ticks: i64,
    pub missing_video_chunk_keys: Seq<Seq<char>>,
    pub decode_chain_invalidated: bool,
}

impl View for ExpiredVideoFrame {
    type V = ExpiredFrameView;

    open spec fn view(&self) -> ExpiredFrameView {
        ExpiredFrameView {
            key: self.key@,
            deadline_ticks: self.deadline_ticks,
            missing_video_chunk_keys: self.missing_video_chunk_keys@.map_values(|k: String| k@),
            decode_chain_invalidated: self.decode_chain_invalidated,
        }
    }
}

/// The deadline an assembly carries (that of its held chunks).
pub open spec fn assembly_deadline(a: AssemblyView) -> i64 {
    first_held(a.slots)->Some_0.deadline_ticks
}

/// What expiring assembly `a` under key `k` reports.
pub open spec fn expired_report(k: FrameKeyView, a: AssemblyView) -> ExpiredFrameView {
    let f = first_held(a.slots)->Some_0;
    ExpiredFrameView {
        key: k,
        deadline_ticks: f.deadline_ticks,
        missing_video_chunk_keys: missing_keys(a.slots, a.frame_id, a.slots.len()),
        decode_chain_invalidated: f.keyframe || f.dependency_frame_id is Some,
    }
}

/// The entries among the first `n` that are still before their deadline.
pub open spec fn live_prefix(e: Seq<(FrameKeyView, AssemblyView)>, now: i64, n: nat) -> Seq<
    (FrameKeyView, AssemblyView),
>
    decreases n,
{
    if n == 0 {
        Seq::empty()
    } else {
        let rest = live_prefix(e, now, (n - 1) as nat);
        if assembly_deadline(e[n - 1].1) <= now {
            rest
        } else {
            rest.push(e[n - 1])
        }
    }
}

/// Reports of the entries among the first `n` whose deadline has passed.
pub open spec fn expired_prefix(e: Seq<(FrameKeyView, AssemblyView)>, now: i64, n: nat) -> Seq<
    ExpiredFrameView,
>
    decreases n,
{
    if n == 0 {
        Seq::empty()
    } else {
        let rest = expired_prefix(e, now, (n - 1) as nat);
        if assembly_deadline(e[n - 1].1) <= now {
            rest.push(expired_report(e[n - 1].0, e[n - 1].1))
        } else {
            rest
        }
    }
}

/// The position of the entry with key `k`, if there is one.
pub open spec fn find_frame(e: Seq<(FrameKeyView, AssemblyView)>, k: FrameKeyView) -> Option<int> {
    if exists|i: int| 0 <= i < e.len() && (#[trigger] e[i]).0 == k {
        Some(choose|i: int| 0 <= i < e.len() && (#[trigger] e[i]).0 == k)
    } else {
        None
    }
}

pub open spec fn entries_wf(e: Seq<(FrameKeyView, AssemblyView)>) -> bool {
    &&& forall|i: int|
        0 <= i < e.len() ==> assembly_wf((#[trigger] e[i]).1) && e[i].0 == assembly_frame_key(
            e[i].1,
        ) && !assembly_complete(e[i].1)
    &&& forall|i: int, j: int| 0 <= i < j < e.len() ==> frame_key_lt((#[trigger] e[i]).0, (#[trigger] e[j]).0)
}

/// `r` is the access unit joined from the complete assembly `a`.
pub open spec fn completed_frame(a: AssemblyView, r: Result<Option<VideoAccessUnit>, MediaError>) -> bool {
    let held = held_chunks(a);
    r matches Ok(Some(au)) && au.keyframe == held[0].keyframe && au.bytes@ == joined_payloads(
        held,
        a.chunk_count as nat,
    )
}

/// What `insert_chunk` does with chunk `c` on entries `old`, leaving `new`.
pub open spec fn insert_chunk_outcome(
    old: Seq<(FrameKeyView, AssemblyView)>,
    c: VideoChunkView,
    new: Seq<(FrameKeyView, AssemblyView)>,
    r: Result<Option<VideoAccessUnit>, MediaError>,
) -> bool {
    let k = chunk_frame_key(c);
    match find_frame(old, k) {
        Some(i) => {
            let a = old[i].1;
            match insert_fault(a, c) {
                Some(f) => r == Err::<Option<VideoAccessUnit>, MediaError>(
                    MediaError::Assembly(f),
                ) && new == old,
                None => {
                    let b = AssemblyView {
                        slots: a.slots.update(c.chunk_index as int, Some(c)),
                        ..a
                    };
                    if assembly_complete(b) {
                        completed_frame(b, r) && new == old.remove(i)
                    } else {
                        r == Ok::<Option<VideoAccessUnit>, MediaError>(None) && new == old.update(
                            i,
                            (k, b),
                        )
                    }
                },
            }
        },
        None => match new_assembly_fault(c) {
            Some(f) => r == Err::<Option<VideoAccessUnit>, MediaError>(MediaError::Assembly(f))
                && new == old,
            None => {
                let a = fresh_assembly(c);
                if assembly_complete(a) {
                    completed_frame(a, r) && new == old
                } else {
                    r == Ok::<Option<VideoAccessUnit>, MediaError>(None) && exists|p: int|
                        0 <= p <= old.len() && new == old.insert(p, (k, a))
                }
            },
        },
    }
}

proof fn lemma_find_frame_at(e: Seq<(FrameKeyView, AssemblyView)>, i: int)
    requires
        entries_wf(e),
        0 <= i < e.len(),
    ensures
        find_frame(e, e[i].0) == Some(i),
{
    let k = e[i].0;
    let j = choose|j: int| 0 <= j < e.len() && (#[trigger] e[j]).0 == k;
    lemma_key_order(e[i].0, e[j].0, e[i].0);
    if i < j {
        assert(frame_key_lt(e[i].0, e[j].0));
    } else if j < i {
        assert(frame_key_lt(e[j].0, e[i].0));
    }
}

pub struct VideoFrameAssemblySet {
    frames: Vec<(VideoFrameKey, VideoFrameAssembly)>,
}

pub open spec fn entry_view(e: (VideoFrameKey, VideoFrameAssembly)) -> (FrameKeyView, AssemblyView) {
    (e.0@, e.1@)
}

impl View for VideoFrameAssemblySet {
    type V = Seq<(FrameKeyView, AssemblyView)>;

    closed spec fn view(&self) -> Seq<(FrameKeyView, AssemblyView)> {
        self.frames@.map_values(|e: (VideoFrameKey, VideoFrameAssembly)| entry_view(e))
    }
}

impl Default for VideoFrameAssemblySet {
    fn default() -> (r: Self)
        ensures
            r@ == Seq::<(FrameKeyView, AssemblyView)>::empty(),
            r.wf(),
    {
        VideoFrameAssemblySet::new()
    }
}

impl VideoFrameAssemblySet {
    pub open spec fn wf(&self) -> bool {
        entries_wf(self@)
    }

    proof fn lemma_view_at(&self, i: int)
        requires
            0 <= i < self.frames@.len(),
        ensures
            self@.len() == self.frames@.len(),
            self@[i] == entry_view(self.frames@[i]),
    {
    }

    proof fn lemma_view_len(&self)
        ensures
            self@.len() == self.frames@.len(),
    {
    }

    /// An empty set.
    pub fn new() -> (r: Self)
        ensures
            r@ == Seq::<(FrameKeyView, AssemblyView)>::empty(),
            r.wf(),
    {
        let r = VideoFrameAssemblySet { frames: Vec::new() };
        assert(r@ =~= Seq::<(FrameKeyView, AssemblyView)>::empty());
        r
    }

    /// The position of the entry with key `key`, scanning in key order.
    fn position(&self, key: &VideoFrameKey) -> (r: (usize, bool))
        requires
            self.wf(),
        ensures
            r.0 <= self@.len(),
            r.1 ==> r.0 < self@.len() && self@[r.0 as int].0 == key@,
            !r.1 ==> find_frame(self@, key@) is None,
            !r.1 ==> forall|j: int| 0 <= j < r.0 ==> frame_key_lt(#[trigger] self@[j].0, key@),
            !r.1 ==> forall|j: int| r.0 <= j < self@.len() ==> frame_key_lt(key@, #[trigger] self@[j].0),
    {
        proof {
            self.lemma_view_len();
        }
        let mut p: usize = 0;
        while p < self.frames.len()
            invariant
                self.wf(),
                self@.len() == self.frames@.len(),
                p <= self@.len(),
                forall|j: int| 0 <= j < p ==> frame_key_lt(#[trigger] self@[j].0, key@),
            decreases self@.len() - p,
        {
            proof {
                self.lemma_view_at(p as int);
            }
            match compare_frame_keys(&self.frames[p].0, key) {
                TextOrder::Less => {},
                TextOrder::Equal => {
                    return (p, true);
                },
                TextOrder::Greater => {
                    proof {
                        let e = self@;
                        assert forall|j: int| p <= j < e.len() implies frame_key_lt(
                            key@,
                            #[trigger] e[j].0,
                        ) by {
                            if j > p {
                                assert(frame_key_lt(e[p as int].0, e[j].0));
                                lemma_key_order(key@, e[p as int].0, e[j].0);
                            }
                        }
                        if exists|i: int| 0 <= i < e.len() && (#[trigger] e[i]).0 == key@ {
                            let i = choose|i: int| 0 <= i < e.len() && (#[trigger] e[i]).0 == key@;
                            lemma_key_order(key@, key@, key@);
                            if i < p {
                                assert(frame_key_lt(e[i].0, key@));
                            } else {
                                assert(frame_key_lt(key@, e[i].0));
                            }
                        }
                    }
                    return (p, false);
                },
            }
            p = p + 1;
        }
        proof {
            let e = self@;
            if exists|i: int| 0 <= i < e.len() && (#[trigger] e[i]).0 == key@ {
                let i = choose|i: int| 0 <= i < e.len() && (#[trigger] e[i]).0 == key@;
                lemma_key_order(key@, key@, key@);
                assert(frame_key_lt(e[i].0, key@));
            }
        }
        (p, false)
    }

    /// Takes in one received chunk; gives back its frame's access unit once
    /// the last chunk of that frame arrives.
    pub fn insert_chunk(&mut self, chunk: MuninnMediaVideoAccessUnitRecord) -> (r: Result<
        Option<VideoAccessUnit>,
        MediaError,
    >)
        requires
            old(self).wf(),
        ensures
            final(self).wf(),
            insert_chunk_outcome(old(self)@, chunk@, final(self)@, r),
    {
        let ghost old_entries = self@;
        let ghost c = chunk@;
        let key = VideoFrameKey::from_chunk(&chunk);
        let (p, found) = self.position(&key);
        proof {
            self.lemma_view_len();
        }
        if found {
            proof {
                lemma_find_frame_at(old_entries, p as int);
                self.lemma_view_at(p as int);
            }
            let (k, mut assembly) = self.frames.remove(p);
            let ghost a = assembly@;
            match assembly.insert(chunk) {
                Err(e) => {
                    self.frames.insert(p, (k, assembly));
                    proof {
                        assert(self@ =~= old_entries) by {
                            assert forall|j: int| 0 <= j < old_entries.len() implies self@[j]
                                == old_entries[j] by {
                                self.lemma_view_at(j);
                            }
                        }
                    }
                    return Err(e);
                },
                Ok(()) => {},
            }
            if assembly.is_complete() {
                proof {
                    law_complete_assembly_reassembles(assembly@);
                    assert(self@ =~= old_entries.remove(p as int)) by {
                        assert forall|j: int| 0 <= j < self@.len() implies self@[j]
                            == old_entries.remove(p as int)[j] by {
                            self.lemma_view_at(j);
                        }
                    }
                }
                let out = assembly.reassemble();
                return match out {
                    Ok(au) => Ok(Some(au)),
                    Err(e) => Err(e),
                };
            }
            self.frames.insert(p, (k, assembly));
            proof {
                let b = assembly@;
                assert(self@ =~= old_entries.update(p as int, (chunk_frame_key(c), b))) by {
                    assert forall|j: int| 0 <= j < self@.len() implies self@[j]
                        == old_entries.update(p as int, (chunk_frame_key(c), b))[j] by {
                        self.lemma_view_at(j);
                    }
                }
            }
            return Ok(None);
        }
        let assembly = match VideoFrameAssembly::new(chunk) {
            Ok(a) => a,
            Err(e) => {
                return Err(e);
            },
        };
        if assembly.is_complete() {
            proof {
                law_complete_assembly_reassembles(assembly@);
            }
            let out = assembly.reassemble();
            return match out {
                Ok(au) => Ok(Some(au)),
                Err(e) => Err(e),
            };
        }
        self.frames.insert(p, (key, assembly));
        proof {
            let n = (chunk_frame_key(c), fresh_assembly(c));
            let want = old_entries.insert(p as int, n);
            assert(self@ =~= want) by {
                assert forall|j: int| 0 <= j < self@.len() implies self@[j] == want[j] by {
                    self.lemma_view_at(j);
                }
            }
            assert forall|i: int, j: int| 0 <= i < j < want.len() implies frame_key_lt(
                (#[trigger] want[i]).0,
                (#[trigger] want[j]).0,
            ) by {
                if i < p && j < p {
                    assert(want[i] == old_entries[i] && want[j] == old_entries[j]);
                } else if i < p && j == p {
                    assert(want[i] == old_entries[i]);
                } else if i < p && j > p {
                    assert(want[i] == old_entries[i] && want[j] == old_entries[j - 1]);
                } else if i == p {
                    assert(want[j] == old_entries[j - 1]);
                } else {
                    assert(want[i] == old_entries[i - 1] && want[j] == old_entries[j - 1]);
                }
            }
        }
        Ok(None)
    }

    /// Feedback keys of the chunks still missing from frame `key`; none when
    /// no such frame is pending.
    pub fn missing_video_chunk_keys(&self, key: &VideoFrameKey) -> (r: Vec<String>)
        requires
            self.wf(),
        ensures
            r@.map_values(|k: String| k@) == match find_frame(self@, key@) {
                Some(i) => missing_keys(self@[i].1.slots, self@[i].1.frame_id, self@[i].1.slots.len()),
                None => Seq::<Seq<char>>::empty(),
            },
    {
        let (p, found) = self.position(key);
        if found {
            proof {
                lemma_find_frame_at(self@, p as int);
                self.lemma_view_at(p as int);
            }
            self.frames[p].1.missing_video_chunk_keys()
        } else {
            let r: Vec<String> = Vec::new();
            assert(r@.map_values(|k: String| k@) =~= Seq::<Seq<char>>::empty());
            r
        }
    }

    /// Number of frames still being assembled.
    pub fn pending_frame_count(&self) -> (r: usize)
        ensures
            r == self@.len(),
    {
        proof {
            self.lemma_view_len();
        }
        self.frames.len()
    }

    /// Removes every frame whose deadline is at or before `now_ticks` and
    /// reports them in key order.
    pub fn expire_late_frames(&mut self, now_ticks: i64) -> (r: Vec<ExpiredVideoFrame>)
        requires
            old(self).wf(),
        ensures
            final(self).wf(),
            final(self)@ == live_prefix(old(self)@, now_ticks, old(self)@.len()),
            r@.map_values(|x: ExpiredVideoFrame| x@) == expired_prefix(
                old(self)@,
                now_ticks,
                old(self)@.len(),
            ),
    {
        let ghost orig = self@;
        proof {
            self.lemma_view_len();
        }
        let mut pending: Vec<(VideoFrameKey, VideoFrameAssembly)> = Vec::new();
        std::mem::swap(&mut pending, &mut self.frames);
        let ghost origf = pending@;
        assert(orig =~= origf.map_values(|e: (VideoFrameKey, VideoFrameAssembly)| entry_view(e)));
        let mut out: Vec<ExpiredVideoFrame> = Vec::new();
        let ghost mut i: int = 0;
        while pending.len() > 0
            invariant
                0 <= i <= orig.len(),
                orig.len() == origf.len(),
                entries_wf(orig),
                forall|j: int| 0 <= j < origf.len() ==> #[trigger] entry_view(origf[j]) == orig[j],
                pending@ =~= origf.subrange(i, origf.len() as int),
                self@ == live_prefix(orig, now_ticks, i as nat),
                entries_wf(self@),
                forall|a: int, j: int|
                    0 <= a < self@.len() && i <= j < orig.len() ==> frame_key_lt(
                        (#[trigger] self@[a]).0,
                        (#[trigger] orig[j]).0,
                    ),
                out@.map_values(|x: ExpiredVideoFrame| x@) == expired_prefix(orig, now_ticks, i as nat),
            decreases pending@.len(),
        {
            let entry = pending.remove(0);
            let ghost ev = entry_view(entry);
            assert(entry == origf[i]);
            assert(ev == orig[i]);
            let (k, assembly) = entry;
            let deadline = assembly.deadline_ticks();
            let ghost prev_self = self@;
            let ghost prev_out = out@;
            if deadline <= now_ticks {
                let missing = assembly.missing_video_chunk_keys();
                let invalidated = assembly.invalidates_decode_chain();
                let report = ExpiredVideoFrame {
                    key: k,
                    deadline_ticks: deadline,
                    missing_video_chunk_keys: missing,
                    decode_chain_invalidated: invalidated,
                };
                out.push(report);
                assert(out@.map_values(|x: ExpiredVideoFrame| x@) =~= prev_out.map_values(
                    |x: ExpiredVideoFrame| x@,
                ).push(expired_report(orig[i].0, orig[i].1)));
            } else {
                proof {
                    self.lemma_view_len();
                }
                let n = self.frames.len();
                self.frames.push((k, assembly));
                proof {
                    assert(self@ =~= prev_self.push(orig[i])) by {
                        assert forall|j: int| 0 <= j < self@.len() implies self@[j]
                            == prev_self.push(orig[i])[j] by {
                            self.lemma_view_at(j);
                        }
                    }
                    assert forall|a: int, b: int| 0 <= a < b < self@.len() implies frame_key_lt(
                        (#[trigger] self@[a]).0,
                        (#[trigger] self@[b]).0,
                    ) by {
                        if b == n {
                            assert(frame_key_lt(prev_self[a].0, orig[i].0));
                        } else {
                            assert(frame_key_lt(prev_self[a].0, prev_self[b].0));
                        }
                    }
                }
            }
            proof {
                let e = self@;
                assert forall|a: int, j: int|
                    0 <= a < e.len() && i + 1 <= j < orig.len() implies frame_key_lt(
                    (#[trigger] e[a]).0,
                    (#[trigger] orig[j]).0,
                ) by {
                    if deadline > now_ticks && a == e.len() - 1 {
                        assert(e[a] == orig[i]);
                    } else {
                        assert(e[a] == prev_self[a]);
                    }
                }
                i = i + 1;
            }
        }
        assert(i == orig.len());
        out
    }
}

} // verus!
