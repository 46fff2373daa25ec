//! Receiver feedback: what a receiver tells the sender about missing, late
//! and undecodable video.
use vstd::prelude::*;
use crate::documents::{FeedbackView, MuninnMediaReceiverFeedbackRecord};
use crate::media::chunk_key::{chunk_key_parse, chunk_key_text, VideoChunkKey};
use crate::media::error::{MediaError, MediaField};
use crate::media::frame_set::{ExpiredFrameView, ExpiredVideoFrame};

verus! {

pub struct ReceiverFeedbackOptions<'a> {
    pub stream_id: &'a str,
    pub session_id: &'a str,
    pub receiver_id: &'a str,
    pub highest_decodable_frame_id: Option<u64>,
    pub missing_frame_ids: Vec<u64>,
    pub missing_video_chunk_keys: Vec<String>,
    pub late_frame_ids: Vec<u64>,
    pub requested_keyframe: bool,
    pub jitter_us: i64,
    pub decode_queue_us: i64,
    pub observed_at: &'a str,
}

pub struct ExpiredVideoFrameFeedbackOptions<'a> {
    pub receiver_id: &'a str,
    pub jitter_us: i64,
    pub decode_queue_us: i64,
    pub observed_at: &'a str,
}

/// Strictly increasing.
pub open spec fn increasing_u64(s: Seq<u64>) -> bool {
    forall|i: int, j: int| 0 <= i < j < s.len() ==> (#[trigger] s[i]) < (#[trigger] s[j])
}

/// The order of chunk keys: by frame, then chunk index.
pub open spec fn chunk_key_lt(a: VideoChunkKey, b: VideoChunkKey) -> bool {
    a.frame_id < b.frame_id || (a.frame_id == b.frame_id && a.chunk_index < b.chunk_index)
}

pub open spec fn increasing_keys(s: Seq<VideoChunkKey>) -> bool {
    forall|i: int, j: int| 0 <= i < j < s.len() ==> chunk_key_lt(#[trigger] s[i], #[trigger] s[j])
}

/// `out` is `items` sorted with duplicates removed.
pub open spec fn sorted_unique_u64(items: Seq<u64>, out: Seq<u64>) -> bool {
    increasing_u64(out) && out.to_set() == items.to_set()
}

/// Parses every key in order; the first malformed key decides the error.
pub open spec fn parse_keys(keys: Seq<Seq<char>>, n: nat) -> Result<Seq<VideoChunkKey>, MediaError>
    decreases n,
{
    if n == 0 {
        Ok(Seq::empty())
    } else {
        match parse_keys(keys, (n - 1) as nat) {
            Err(e) => Err(e),
            Ok(prev) => match chunk_key_parse(keys[n - 1]) {
                Err(e) => Err(e),
                Ok(k) => Ok(prev.push(k)),
            },
        }
    }
}

/// The feedback texts of keys, in order.
pub open spec fn key_texts(s: Seq<VideoChunkKey>) -> Seq<Seq<char>> {
    s.map_values(|k: VideoChunkKey| chunk_key_text(k.frame_id, k.chunk_index))
}

/// What normalizing `keys` gives: parsed, sorted, deduplicated and
/// written back in canonical form.
pub open spec fn normalized_keys(keys: Seq<Seq<char>>, r: Result<Vec<String>, MediaError>) -> bool {
    match parse_keys(keys, keys.len()) {
        Err(e) => r == Err::<Vec<String>, MediaError>(e),
        Ok(parsed) => r matches Ok(out) && exists|ks: Seq<VideoChunkKey>|
            increasing_keys(ks) && ks.to_set() == parsed.to_set() && out@.map_values(
                |s: String| s@,
            ) == #[trigger] key_texts(ks),
    }
}

/// Sorts and deduplicates ids.
pub fn sort_unique_ids(items: Vec<u64>) -> (r: Vec<u64>)
    ensures
        sorted_unique_u64(items@, r@),
{
    let mut out: Vec<u64> = Vec::new();
    let mut i: usize = 0;
    while i < items.len()
        invariant
            i <= items@.len(),
            increasing_u64(out@),
            out@.to_set() == items@.subrange(0, i as int).to_set(),
        decreases items@.len() - i,
    {
        let x = items[i];
        let mut p: usize = 0;
        while p < out.len() && out[p] < x
            invariant
                p <= out@.len(),
                forall|q: int| 0 <= q < p ==> out@[q] < x,
            decreases out@.len() - p,
        {
            p = p + 1;
        }
        let ghost before = out@;
        proof {
            assert(items@.subrange(0, i + 1) =~= items@.subrange(0, i as int).push(x));
            items@.subrange(0, i as int).lemma_push_to_set_commute(x);
        }
        if p < out.len() && out[p] == x {
            proof {
                assert(before.to_set() =~= before.to_set().insert(x));
            }
        } else {
            out.insert(p, x);
            proof {
                assert forall|a: int, b: int| 0 <= a < b < out@.len() implies (#[trigger] out@[a]) < (#[trigger] out@[b]) by {
                    if a < p && b < p {
                        assert(out@[a] == before[a] && out@[b] == before[b]);
                    } else if a < p && b == p {
                        assert(out@[a] == before[a]);
                    } else if a < p {
                        assert(out@[a] == before[a] && out@[b] == before[b - 1]);
                    } else if a == p {
                        assert(out@[b] == before[b - 1]);
                        if p < before.len() {
                            assert(before[p as int] > x);
                            if b - 1 > p {
                                assert(before[p as int] < before[b - 1]);
                            }
                        }
                    } else {
                        assert(out@[a] == before[a - 1] && out@[b] == before[b - 1]);
                    }
                }
                assert(out@.to_set() =~= before.to_set().insert(x)) by {
                    assert forall|y: u64| out@.to_set().contains(y) implies before.to_set().insert(x).contains(y) by {
                        let q = choose|q: int| 0 <= q < out@.len() && out@[q] == y;
                        if q < p {
                            assert(out@[q] == before[q]);
                        } else if q > p {
                            assert(out@[q] == before[q - 1]);
                        }
                    }
                    assert forall|y: u64| before.to_set().insert(x).contains(y) implies out@.to_set().contains(y) by {
                        if y == x {
                            assert(out@[p as int] == x);
                        } else {
                            let q = choose|q: int| 0 <= q < before.len() && before[q] == y;
                            if q < p {
                                assert(out@[q] == before[q]);
                            } else {
                                assert(out@[q + 1] == before[q]);
                            }
                        }
                    }
                }
            }
        }
        i = i + 1;
    }
    assert(items@.subrange(0, i as int) =~= items@);
    out
}

fn key_less(a: &VideoChunkKey, b: &VideoChunkKey) -> (r: bool)
    ensures
        r == chunk_key_lt(*a, *b),
{
    a.frame_id < b.frame_id || (a.frame_id == b.frame_id && a.chunk_index < b.chunk_index)
}

/// Parses, sorts and deduplicates chunk keys and writes them back in
/// canonical form.
pub fn normalize_video_chunk_feedback_keys(keys: &Vec<String>) -> (r: Result<Vec<String>, MediaError>)
    ensures
        normalized_keys(keys@.map_values(|s: String| s@), r),
{
    let ghost texts = keys@.map_values(|s: String| s@);
    let mut parsed: Vec<VideoChunkKey> = Vec::new();
    let mut i: usize = 0;
    while i < keys.len()
        invariant
            texts == keys@.map_values(|s: String| s@),
            i <= keys@.len(),
            parse_keys(texts, i as nat) == Ok::<Seq<VideoChunkKey>, MediaError>(parsed@),
        decreases keys@.len() - i,
    {
        match VideoChunkKey::parse(keys[i].as_str()) {
            Ok(k) => {
                parsed.push(k);
            },
            Err(e) => {
                proof {
                    let n = keys@.len();
                    lemma_parse_keys_err(texts, (i + 1) as nat, n, e);
                }
                return Err(e);
            },
        }
        i = i + 1;
    }
    let mut sorted: Vec<VideoChunkKey> = Vec::new();
    let mut j: usize = 0;
    while j < parsed.len()
        invariant
            j <= parsed@.len(),
            increasing_keys(sorted@),
            sorted@.to_set() == parsed@.subrange(0, j as int).to_set(),
        decreases parsed@.len() - j,
    {
        let x = parsed[j];
        let mut p: usize = 0;
        while p < sorted.len() && key_less(&sorted[p], &x)
            invariant
                p <= sorted@.len(),
                forall|q: int| 0 <= q < p ==> chunk_key_lt(sorted@[q], x),
            decreases sorted@.len() - p,
        {
            p = p + 1;
        }
        let ghost before = sorted@;
        proof {
            assert(parsed@.subrange(0, j + 1) =~= parsed@.subrange(0, j as int).push(x));
            parsed@.subrange(0, j as int).lemma_push_to_set_commute(x);
        }
        if p < sorted.len() && sorted[p].frame_id == x.frame_id && sorted[p].chunk_index
            == x.chunk_index {
            proof {
                assert(sorted@[p as int] == x);
                assert(before.to_set() =~= before.to_set().insert(x));
            }
        } else {
            sorted.insert(p, x);
            proof {
                assert forall|a: int, b: int| 0 <= a < b < sorted@.len() implies chunk_key_lt(
                    #[trigger] sorted@[a],
                    #[trigger] sorted@[b],
                ) by {
                    if a < p && b < p {
                        assert(sorted@[a] == before[a] && sorted@[b] == before[b]);
                    } else if a < p && b == p {
                        assert(sorted@[a] == before[a]);
                    } else if a < p {
                        assert(sorted@[a] == before[a] && sorted@[b] == before[b - 1]);
                        assert(chunk_key_lt(before[a], x));
                    } else if a == p {
                        assert(sorted@[b] == before[b - 1]);
                        if p < before.len() {
                            assert(!chunk_key_lt(before[p as int], x));
                            assert(before[p as int] != x);
                            if b - 1 > p {
                                assert(chunk_key_lt(before[p as int], before[b - 1]));
                            }
                        }
                    } else {
                        assert(sorted@[a] == before[a - 1] && sorted@[b] == before[b - 1]);
                    }
                }
                assert(sorted@.to_set() =~= before.to_set().insert(x)) by {
                    assert forall|y: VideoChunkKey| sorted@.to_set().contains(y) implies before.to_set().insert(
                        x,
                    ).contains(y) by {
                        let q = choose|q: int| 0 <= q < sorted@.len() && sorted@[q] == y;
                        if q < p {
                            assert(sorted@[q] == before[q]);
                        } else if q > p {
                            assert(sorted@[q] == before[q - 1]);
                        }
                    }
                    assert forall|y: VideoChunkKey| before.to_set().insert(x).contains(y) implies sorted@.to_set().contains(
                        y,
                    ) by {
                        if y == x {
                            assert(sorted@[p as int] == x);
                        } else {
                            let q = choose|q: int| 0 <= q < before.len() && before[q] == y;
                            if q < p {
                                assert(sorted@[q] == before[q]);
                            } else {
                                assert(sorted@[q + 1] == before[q]);
                            }
                        }
                    }
                }
            }
        }
        j = j + 1;
    }
    assert(parsed@.subrange(0, j as int) =~= parsed@);
    let mut out: Vec<String> = Vec::new();
    let mut k: usize = 0;
    while k < sorted.len()
        invariant
            k <= sorted@.len(),
            out@.map_values(|s: String| s@) == key_texts(sorted@.subrange(0, k as int)),
        decreases sorted@.len() - k,
    {
        let ghost prev = out@;
        let text = sorted[k].as_feedback_key();
        out.push(text);
        k = k + 1;
        assert(out@.map_values(|s: String| s@) =~= key_texts(sorted@.subrange(0, k as int))) by {
            assert(out@.map_values(|s: String| s@) =~= prev.map_values(|s: String| s@).push(text@));
            assert(key_texts(sorted@.subrange(0, k as int)) =~= key_texts(sorted@.subrange(0, k - 1)).push(
                chunk_key_text(sorted@[k - 1].frame_id, sorted@[k - 1].chunk_index),
            ));
        }
    }
    proof {
        assert(sorted@.subrange(0, k as int) =~= sorted@);
        assert(parse_keys(texts, texts.len()) == Ok::<Seq<VideoChunkKey>, MediaError>(parsed@));
        assert(increasing_keys(sorted@) && sorted@.to_set() == parsed@.to_set() && out@.map_values(
            |s: String| s@,
        ) == key_texts(sorted@));
    }
    Ok(out)
}

proof fn lemma_parse_keys_err(keys: Seq<Seq<char>>, k: nat, n: nat, e: MediaError)
    requires
        k <= n,
        parse_keys(keys, k) == Err::<Seq<VideoChunkKey>, MediaError>(e),
    ensures
        parse_keys(keys, n) == Err::<Seq<VideoChunkKey>, MediaError>(e),
    decreases n - k,
{
    if k < n {
        lemma_parse_keys_err(keys, k, (n - 1) as nat, e);
    }
}

/// Why feedback with these options would be refused before the lists are
/// normalized.
pub open spec fn feedback_option_error(o: ReceiverFeedbackOptions) -> Option<MediaError> {
    if o.stream_id@.len() == 0 {
        Some(MediaError::EmptyField(MediaField::StreamId))
    } else if o.session_id@.len() == 0 {
        Some(MediaError::EmptyField(MediaField::SessionId))
    } else if o.receiver_id@.len() == 0 {
        Some(MediaError::EmptyField(MediaField::ReceiverId))
    } else if o.observed_at@.len() == 0 {
        Some(MediaError::EmptyField(MediaField::ObservedAt))
    } else if o.jitter_us < 0 {
        Some(MediaError::NegativeJitter)
    } else if o.decode_queue_us < 0 {
        Some(MediaError::NegativeDecodeQueue)
    } else {
        None
    }
}

/// `f` is the feedback record built from the options.
pub open spec fn feedback_built(o: ReceiverFeedbackOptions, f: FeedbackView) -> bool {
    &&& f.stream_id == o.stream_id@
    &&& f.session_id == o.session_id@
    &&& f.receiver_id == o.receiver_id@
    &&& f.highest_decodable_frame_id == o.highest_decodable_frame_id
    &&& sorted_unique_u64(o.missing_frame_ids@, f.missing_frame_ids)
    &&& sorted_unique_u64(o.late_frame_ids@, f.late_frame_ids)
    &&& f.requested_keyframe == o.requested_keyframe
    &&& f.jitter_us == o.jitter_us
    &&& f.decode_queue_us == o.decode_queue_us
    &&& f.observed_at == o.observed_at@
}

/// Builds one receiver feedback record: ids sorted and deduplicated, chunk
/// keys normalized.
pub fn build_receiver_feedback(options: ReceiverFeedbackOptions<'_>) -> (r: Result<
    MuninnMediaReceiverFeedbackRecord,
    MediaError,
>)
    ensures
        match feedback_option_error(options) {
            Some(e) => r == Err::<MuninnMediaReceiverFeedbackRecord, MediaError>(e),
            None => {
                let texts = options.missing_video_chunk_keys@.map_values(|s: String| s@);
                match parse_keys(texts, texts.len()) {
                    Err(e) => r == Err::<MuninnMediaReceiverFeedbackRecord, MediaError>(e),
                    Ok(_) => r matches Ok(f) && feedback_built(options, f@) && normalized_keys(
                        texts,
                        Ok::<Vec<String>, MediaError>(f.missing_video_chunk_keys),
                    ),
                }
            },
        },
{
    if options.stream_id.is_empty() {
        return Err(MediaError::EmptyField(MediaField::StreamId));
    }
    if options.session_id.is_empty() {
        return Err(MediaError::EmptyField(MediaField::SessionId));
    }
    if options.receiver_id.is_empty() {
        return Err(MediaError::EmptyField(MediaField::ReceiverId));
    }
    if options.observed_at.is_empty() {
        return Err(MediaError::EmptyField(MediaField::ObservedAt));
    }
    if options.jitter_us < 0 {
        return Err(MediaError::NegativeJitter);
    }
    if options.decode_queue_us < 0 {
        return Err(MediaError::NegativeDecodeQueue);
    }
    let ghost o = options;
    let ReceiverFeedbackOptions {
        stream_id,
        session_id,
        receiver_id,
        highest_decodable_frame_id,
        missing_frame_ids,
        missing_video_chunk_keys,
        late_frame_ids,
        requested_keyframe,
        jitter_us,
        decode_queue_us,
        observed_at,
    } = options;
    let missing_frame_ids = sort_unique_ids(missing_frame_ids);
    let missing_video_chunk_keys = match normalize_video_chunk_feedback_keys(
        &missing_video_chunk_keys,
    ) {
        Ok(k) => k,
        Err(e) => {
            return Err(e);
        },
    };
    let late_frame_ids = sort_unique_ids(late_frame_ids);
    Ok(
        MuninnMediaReceiverFeedbackRecord {
            stream_id: stream_id.to_string(),
            session_id: session_id.to_string(),
            receiver_id: receiver_id.to_string(),
            highest_decodable_frame_id,
            missing_frame_ids,
            late_frame_ids,
            requested_keyframe,
            jitter_us,
            decode_queue_us,
            observed_at: observed_at.to_string(),
            missing_video_chunk_keys,
        },
    )
}

/// The chunk keys the expired frames `e[0..n]` report missing, in order.
pub open spec fn expired_missing_keys(e: Seq<ExpiredFrameView>, n: nat) -> Seq<Seq<char>>
    decreases n,
{
    if n == 0 {
        Seq::empty()
    } else {
        expired_missing_keys(e, (n - 1) as nat) + e[n - 1].missing_video_chunk_keys
    }
}

pub open spec fn expired_views(e: Seq<ExpiredVideoFrame>) -> Seq<ExpiredFrameView> {
    e.map_values(|x: ExpiredVideoFrame| x@)
}

/// Turns the frames that expired together into one feedback record: they
/// are reported late, their missing chunks are listed, and a keyframe is
/// requested exactly when one of them breaks the decode chain.
pub fn build_feedback_for_expired_video_frames(
    expired: &[ExpiredVideoFrame],
    options: ExpiredVideoFrameFeedbackOptions<'_>,
) -> (r: Result<Option<MuninnMediaReceiverFeedbackRecord>, MediaError>)
    ensures
        expired@.len() == 0 ==> r == Ok::<Option<MuninnMediaReceiverFeedbackRecord>, MediaError>(None),
        expired@.len() > 0 ==> {
            let e = expired_views(expired@);
            let first = e[0];
            if exists|i: int|
                0 <= i < e.len() && ((#[trigger] e[i]).key.stream_id != first.key.stream_id
                    || e[i].key.session_id != first.key.session_id) {
                r == Err::<Option<MuninnMediaReceiverFeedbackRecord>, MediaError>(
                    MediaError::ExpiredMixedStreams,
                )
            } else if first.key.stream_id.len() == 0 {
                r == Err::<Option<MuninnMediaReceiverFeedbackRecord>, MediaError>(
                    MediaError::EmptyField(MediaField::StreamId),
                )
            } else if first.key.session_id.len() == 0 {
                r == Err::<Option<MuninnMediaReceiverFeedbackRecord>, MediaError>(
                    MediaError::EmptyField(MediaField::SessionId),
                )
            } else if options.receiver_id@.len() == 0 {
                r == Err::<Option<MuninnMediaReceiverFeedbackRecord>, MediaError>(
                    MediaError::EmptyField(MediaField::ReceiverId),
                )
            } else if options.observed_at@.len() == 0 {
                r == Err::<Option<MuninnMediaReceiverFeedbackRecord>, MediaError>(
                    MediaError::EmptyField(MediaField::ObservedAt),
                )
            } else if options.jitter_us < 0 {
                r == Err::<Option<MuninnMediaReceiverFeedbackRecord>, MediaError>(
                    MediaError::NegativeJitter,
                )
            } else if options.decode_queue_us < 0 {
                r == Err::<Option<MuninnMediaReceiverFeedbackRecord>, MediaError>(
                    MediaError::NegativeDecodeQueue,
                )
            } else {
                let keys = expired_missing_keys(e, e.len());
                match parse_keys(keys, keys.len()) {
                    Err(err) => r == Err::<Option<MuninnMediaReceiverFeedbackRecord>, MediaError>(err),
                    Ok(_) => r matches Ok(Some(f)) && {
                        let v = f@;
                        &&& v.stream_id == first.key.stream_id
                        &&& v.session_id == first.key.session_id
                        &&& v.receiver_id == options.receiver_id@
                        &&& v.highest_decodable_frame_id == (if first.key.frame_id >= 1 {
                            Some((first.key.frame_id - 1) as u64)
                        } else {
                            None
                        })
                        &&& v.missing_frame_ids.len() == 0
                        &&& sorted_unique_u64(
                            e.map_values(|x: ExpiredFrameView| x.key.frame_id),
                            v.late_frame_ids,
                        )
                        &&& v.requested_keyframe == exists|i: int|
                            0 <= i < e.len() && (#[trigger] e[i]).decode_chain_invalidated
                        &&& v.jitter_us == options.jitter_us
                        &&& v.decode_queue_us == options.decode_queue_us
                        &&& v.observed_at == options.observed_at@
                        &&& normalized_keys(
                            keys,
                            Ok::<Vec<String>, MediaError>(f.missing_video_chunk_keys),
                        )
                    },
                }
            }
        },
{
    if expired.len() == 0 {
        return Ok(None);
    }
    let ghost e = expired_views(expired@);
    let first = &expired[0];
    assert(e[0] == first@);
    let mut late: Vec<u64> = Vec::new();
    let mut keys: Vec<String> = Vec::new();
    let mut invalidated = false;
    let mut i: usize = 0;
    while i < expired.len()
        invariant
            e == expired_views(expired@),
            e.len() == expired@.len(),
            e[0] == first@,
            i <= expired@.len(),
            forall|j: int|
                0 <= j < i ==> (#[trigger] e[j]).key.stream_id == first@.key.stream_id
                    && e[j].key.session_id == first@.key.session_id,
            late@ == e.subrange(0, i as int).map_values(|x: ExpiredFrameView| x.key.frame_id),
            keys@.map_values(|s: String| s@) == expired_missing_keys(e, i as nat),
            invalidated == exists|j: int| 0 <= j < i && (#[trigger] e[j]).decode_chain_invalidated,
        decreases expired@.len() - i,
    {
        let frame = &expired[i];
        assert(e[i as int] == frame@);
        if frame.key.stream_id != first.key.stream_id || frame.key.session_id
            != first.key.session_id {
            return Err(MediaError::ExpiredMixedStreams);
        }
        late.push(frame.key.frame_id);
        let ghost prev_keys = keys@;
        let mut t: usize = 0;
        while t < frame.missing_video_chunk_keys.len()
            invariant
                e[i as int] == frame@,
                t <= frame.missing_video_chunk_keys@.len(),
                keys@.map_values(|s: String| s@) == prev_keys.map_values(|s: String| s@)
                    + frame@.missing_video_chunk_keys.subrange(0, t as int),
            decreases frame.missing_video_chunk_keys@.len() - t,
        {
            let ghost before = keys@;
            keys.push(crate::documents::copy_string(&frame.missing_video_chunk_keys[t]));
            t = t + 1;
            assert(keys@.map_values(|s: String| s@) =~= prev_keys.map_values(|s: String| s@)
                + frame@.missing_video_chunk_keys.subrange(0, t as int)) by {
                assert(keys@.map_values(|s: String| s@) =~= before.map_values(|s: String| s@).push(
                    frame.missing_video_chunk_keys@[t - 1]@,
                ));
            }
        }
        assert(frame@.missing_video_chunk_keys.subrange(0, t as int) =~= frame@.missing_video_chunk_keys);
        invalidated = invalidated || frame.decode_chain_invalidated;
        i = i + 1;
        assert(late@ =~= e.subrange(0, i as int).map_values(|x: ExpiredFrameView| x.key.frame_id));
    }
    assert(e.subrange(0, i as int) =~= e);
    let options_for_record = ReceiverFeedbackOptions {
        stream_id: first.key.stream_id.as_str(),
        session_id: first.key.session_id.as_str(),
        receiver_id: options.receiver_id,
        highest_decodable_frame_id: first.key.frame_id.checked_sub(1),
        missing_frame_ids: Vec::new(),
        missing_video_chunk_keys: keys,
        late_frame_ids: late,
        requested_keyframe: invalidated,
        jitter_us: options.jitter_us,
        decode_queue_us: options.decode_queue_us,
        observed_at: options.observed_at,
    };
    let built = build_receiver_feedback(options_for_record);
    match built {
        Ok(f) => {
            proof {
                assert(f@.missing_frame_ids.to_set() =~= Set::<u64>::empty());
                if f@.missing_frame_ids.len() > 0 {
                    assert(f@.missing_frame_ids.to_set().contains(f@.missing_frame_ids[0]));
                }
            }
            Ok(Some(f))
        },
        Err(err) => Err(err),
    }
}

} // verus!
