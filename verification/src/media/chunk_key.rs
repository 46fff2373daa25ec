//! `<frame_id>:<chunk_index>` keys that name one video chunk in receiver
//! feedback.
use vstd::prelude::*;
use crate::media::error::MediaError;
use crate::text::{
    count_char, first_index_of, all_digits, decimal, digits_value, is_digit, lemma_decimal_shape, parse_u16_chars,
    parse_u16_spec, parse_u64_chars, parse_u64_spec, push_char, push_decimal, unsigned_literal,
};

verus! {

#[derive(Clone, Copy, Debug, PartialEq, Eq, Structural, PartialOrd, Ord, Hash)]
pub struct VideoChunkKey {
    pub frame_id: u64,
    pub chunk_index: u16,
}

/// The feedback text of a chunk key: both numbers in decimal around one `:`.
pub open spec fn chunk_key_text(frame_id: u64, chunk_index: u16) -> Seq<char> {
    decimal(frame_id as nat) + seq![':'] + decimal(chunk_index as nat)
}

/// `p` is the one and only `:` of `s`.
pub open spec fn sole_separator_at(s: Seq<char>, p: int) -> bool {
    &&& 0 <= p < s.len()
    &&& s[p] == ':'
    &&& forall|j: int| 0 <= j < s.len() && j != p ==> #[trigger] s[j] != ':'
}

/// What `VideoChunkKey::parse` gives for the characters `s`.
pub open spec fn chunk_key_parse(s: Seq<char>) -> Result<VideoChunkKey, MediaError> {
    if exists|p: int| sole_separator_at(s, p) {
        let p = choose|p: int| sole_separator_at(s, p);
        match parse_u64_spec(s.subrange(0, p)) {
            None => Err(MediaError::ChunkKeyFrameId),
            Some(frame_id) => match parse_u16_spec(s.subrange(p + 1, s.len() as int)) {
                None => Err(MediaError::ChunkKeyChunkIndex),
                Some(chunk_index) => Ok(VideoChunkKey { frame_id, chunk_index }),
            },
        }
    } else {
        Err(MediaError::ChunkKeySeparator)
    }
}

proof fn lemma_sole_separator_unique(s: Seq<char>, p: int, q: int)
    requires
        sole_separator_at(s, p),
        sole_separator_at(s, q),
    ensures
        p == q,
{
    if p != q {
        assert(s[q] != ':');
    }
}

impl VideoChunkKey {
    pub fn new(frame_id: u64, chunk_index: u16) -> (r: Self)
        ensures
            r.frame_id == frame_id,
            r.chunk_index == chunk_index,
    {
        VideoChunkKey { frame_id, chunk_index }
    }

    /// Reads a `<frame_id>:<chunk_index>` key.
    pub fn parse(value: &str) -> (r: Result<Self, MediaError>)
        ensures
            r == chunk_key_parse(value@),
    {
        let chars = crate::text::chars_of(value);
        let ghost s = value@;
        let n = chars.len();
        let mut colons: usize = 0;
        let mut first: usize = 0;
        let ghost mut second: int = 0;
        let mut i: usize = 0;
        while i < n
            invariant
                chars@ == s,
                n == s.len(),
                i <= n,
                colons <= 2,
                colons == 0 ==> forall|j: int| 0 <= j < i ==> #[trigger] s[j] != ':',
                colons >= 1 ==> first < i && s[first as int] == ':',
                colons == 1 ==> forall|j: int| 0 <= j < i && j != first ==> #[trigger] s[j] != ':',
                colons == 2 ==> 0 <= second < i && second != first && s[second] == ':',
            decreases n - i,
        {
            if chars[i] == ':' {
                if colons == 0 {
                    first = i;
                    colons = 1;
                } else if colons == 1 {
                    proof {
                        second = i as int;
                    }
                    colons = 2;
                }
            }
            i = i + 1;
        }
        if colons != 1 {
            proof {
                if exists|p: int| sole_separator_at(s, p) {
                    let p = choose|p: int| sole_separator_at(s, p);
                    if colons == 0 {
                        assert(s[p] != ':');
                    } else {
                        if p != first as int {
                            assert(s[first as int] != ':');
                        } else {
                            assert(s[second] != ':');
                        }
                    }
                }
            }
            return Err(MediaError::ChunkKeySeparator);
        }
        proof {
            assert(sole_separator_at(s, first as int));
            let p = choose|p: int| sole_separator_at(s, p);
            lemma_sole_separator_unique(s, p, first as int);
        }
        let frame_id = match parse_u64_chars(chars.as_slice(), 0, first) {
            Some(v) => v,
            None => {
                return Err(MediaError::ChunkKeyFrameId);
            },
        };
        let chunk_index = match parse_u16_chars(chars.as_slice(), first + 1, n) {
            Some(v) => v,
            None => {
                return Err(MediaError::ChunkKeyChunkIndex);
            },
        };
        Ok(VideoChunkKey { frame_id, chunk_index })
    }

    /// The feedback text of this key.
    pub fn as_feedback_key(&self) -> (r: String)
        ensures
            r@ == chunk_key_text(self.frame_id, self.chunk_index),
    {
        let mut out = String::new();
        push_decimal(&mut out, self.frame_id);
        push_char(&mut out, ':');
        push_decimal(&mut out, self.chunk_index as u64);
        assert(out@ =~= chunk_key_text(self.frame_id, self.chunk_index));
        out
    }
}

/// The feedback text naming chunk `chunk_index` of frame `frame_id`.
pub fn video_chunk_feedback_key(frame_id: u64, chunk_index: u16) -> (r: String)
    ensures
        r@ == chunk_key_text(frame_id, chunk_index),
{
    VideoChunkKey::new(frame_id, chunk_index).as_feedback_key()
}

proof fn lemma_decimal_parses(n: nat)
    ensures
        unsigned_literal(decimal(n)) == Some(n),
        forall|j: int| 0 <= j < decimal(n).len() ==> #[trigger] decimal(n)[j] != ':',
{
    lemma_decimal_shape(n);
    let d = decimal(n);
    assert(is_digit(d[0]));
    assert(d[0] != '+');
    assert forall|j: int| 0 <= j < d.len() implies #[trigger] d[j] != ':' by {
        assert(is_digit(d[j]));
    }
}

/// Reading back the feedback text of a chunk key gives the same key.
pub proof fn law_chunk_key_round_trip(key: VideoChunkKey)
    ensures
        chunk_key_parse(chunk_key_text(key.frame_id, key.chunk_index)) == Ok::<
            VideoChunkKey,
            MediaError,
        >(key),
{
    let f = decimal(key.frame_id as nat);
    let c = decimal(key.chunk_index as nat);
    let s = chunk_key_text(key.frame_id, key.chunk_index);
    lemma_decimal_parses(key.frame_id as nat);
    lemma_decimal_parses(key.chunk_index as nat);
    let p = f.len() as int;
    assert(s[p] == ':');
    assert forall|j: int| 0 <= j < s.len() && j != p implies #[trigger] s[j] != ':' by {
        if j < p {
            assert(s[j] == f[j]);
        } else {
            assert(s[j] == c[j - p - 1]);
        }
    }
    assert(sole_separator_at(s, p));
    let q = choose|q: int| sole_separator_at(s, q);
    lemma_sole_separator_unique(s, p, q);
    assert(s.subrange(0, p) =~= f);
    assert(s.subrange(p + 1, s.len() as int) =~= c);
}

proof fn lemma_count_zero(s: Seq<char>, c: char)
    ensures
        count_char(s, c) == 0 <==> forall|j: int| 0 <= j < s.len() ==> s[j] != c,
    decreases s.len(),
{
    if s.len() > 0 {
        lemma_count_zero(s.drop_last(), c);
        if count_char(s, c) == 0 {
            assert forall|j: int| 0 <= j < s.len() implies s[j] != c by {
                if j < s.len() - 1 {
                    assert(s.drop_last()[j] == s[j]);
                }
            }
        }
        if forall|j: int| 0 <= j < s.len() ==> s[j] != c {
            assert forall|j: int| 0 <= j < s.drop_last().len() implies s.drop_last()[j] != c by {
                assert(s.drop_last()[j] == s[j]);
            }
            assert(s.last() == s[s.len() - 1]);
        }
    }
}

proof fn lemma_count_one(s: Seq<char>)
    ensures
        count_char(s, ':') == 1 <==> exists|p: int| sole_separator_at(s, p),
    decreases s.len(),
{
    if s.len() > 0 {
        let d = s.drop_last();
        lemma_count_one(d);
        lemma_count_zero(d, ':');
        let last = s.len() - 1;
        assert(s.last() == s[last]);
        if count_char(s, ':') == 1 {
            if s[last] == ':' {
                assert forall|j: int| 0 <= j < s.len() && j != last implies #[trigger] s[j] != ':' by {
                    assert(d[j] == s[j]);
                }
                assert(sole_separator_at(s, last));
            } else {
                let p = choose|p: int| sole_separator_at(d, p);
                assert forall|j: int| 0 <= j < s.len() && j != p implies #[trigger] s[j] != ':' by {
                    if j < last {
                        assert(d[j] == s[j]);
                    }
                }
                assert(d[p] == s[p]);
                assert(sole_separator_at(s, p));
            }
        }
        if exists|p: int| sole_separator_at(s, p) {
            let p = choose|p: int| sole_separator_at(s, p);
            if p == last {
                assert forall|j: int| 0 <= j < d.len() implies d[j] != ':' by {
                    assert(d[j] == s[j]);
                }
            } else {
                assert(s[last] != ':');
                assert forall|j: int| 0 <= j < d.len() && j != p implies #[trigger] d[j] != ':' by {
                    assert(d[j] == s[j]);
                }
                assert(d[p] == s[p]);
                assert(sole_separator_at(d, p));
            }
        }
    }
}

proof fn lemma_sole_is_first(s: Seq<char>, p: int)
    requires
        sole_separator_at(s, p),
    ensures
        first_index_of(s, ':') == Some(p),
    decreases s.len(),
{
    if p > 0 {
        let t = s.drop_first();
        assert(s[0] != ':');
        assert forall|j: int| 0 <= j < t.len() && j != p - 1 implies #[trigger] t[j] != ':' by {
            assert(t[j] == s[j + 1]);
        }
        assert(t[p - 1] == s[p]);
        lemma_sole_is_first(t, p - 1);
    }
}

/// A key is read exactly when its text holds one `:`, the text before it
/// reads as a frame id and the text after it as a chunk index; with any
/// other number of `:` it is refused for its separator.
pub proof fn law_chunk_key_separator_count(s: Seq<char>)
    ensures
        count_char(s, ':') != 1 ==> chunk_key_parse(s) == Err::<VideoChunkKey, MediaError>(
            MediaError::ChunkKeySeparator,
        ),
        count_char(s, ':') == 1 ==> first_index_of(s, ':') is Some,
        chunk_key_parse(s) is Ok <==> {
            &&& count_char(s, ':') == 1
            &&& parse_u64_spec(s.subrange(0, first_index_of(s, ':')->0)) is Some
            &&& parse_u16_spec(s.subrange(first_index_of(s, ':')->0 + 1, s.len() as int)) is Some
        },
{
    lemma_count_one(s);
    if count_char(s, ':') == 1 {
        let p = choose|p: int| sole_separator_at(s, p);
        lemma_sole_is_first(s, p);
    }
}

} // verus!
