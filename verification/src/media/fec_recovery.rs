//! Receiver side of the 4+2 audio erasure code: rebuilding up to two lost
//! data shards from the two parity rows.
use vstd::prelude::*;
use crate::media::audio::{
    audio_coef, audio_fec_fault, audio_parity_byte, audio_parity_row, audio_record_fault, audio_row_coef,
    fec_shard_fault, first_audio_record_fault, first_fec_shard_fault,
};
use crate::documents::AudioPacketView;
use crate::media::error::{FecFault, MediaError};
use crate::media::gf256::{
    gf256_mul, gf_mul, is_small_pivot, lemma_gf_mul_linear, lemma_gf_mul_one, lemma_small_inverse,
    lemma_xor_algebra, small_inverse, small_inverse_exec,
};

verus! {

/// One byte of each of the four data shards.
pub type Quad = (u8, u8, u8, u8);

/// Which of the four data shards are present.
pub type Presence = (bool, bool, bool, bool);

pub open spec fn quad_at(x: Quad, i: int) -> u8 {
    if i == 0 {
        x.0
    } else if i == 1 {
        x.1
    } else if i == 2 {
        x.2
    } else {
        x.3
    }
}

pub open spec fn quad_set(x: Quad, i: int, v: u8) -> Quad {
    if i == 0 {
        (v, x.1, x.2, x.3)
    } else if i == 1 {
        (x.0, v, x.2, x.3)
    } else if i == 2 {
        (x.0, x.1, v, x.3)
    } else {
        (x.0, x.1, x.2, v)
    }
}

pub open spec fn present_at(h: Presence, i: int) -> bool {
    if i == 0 {
        h.0
    } else if i == 1 {
        h.1
    } else if i == 2 {
        h.2
    } else {
        h.3
    }
}

/// The sum (xor) of four field elements, in order.
pub open spec fn row_sum(y: Quad) -> u8 {
    (((0u8 ^ y.0) ^ y.1) ^ y.2) ^ y.3
}

/// Each data byte times its coefficient in parity row `p`.
pub open spec fn row_terms(x: Quad, p: int) -> Quad {
    (
        gf_mul(x.0, audio_row_coef(p, 0)),
        gf_mul(x.1, audio_row_coef(p, 1)),
        gf_mul(x.2, audio_row_coef(p, 2)),
        gf_mul(x.3, audio_row_coef(p, 3)),
    )
}

/// Parity row `p` of one byte column: `P0 = D0+D1+D2+D3`,
/// `P1 = D0+2D1+4D2+8D3`.
pub open spec fn fec_row(x: Quad, p: int) -> u8 {
    row_sum(row_terms(x, p))
}

pub open spec fn missing_count(h: Presence) -> nat {
    (if h.0 {
        0nat
    } else {
        1nat
    }) + (if h.1 {
        0nat
    } else {
        1nat
    }) + (if h.2 {
        0nat
    } else {
        1nat
    }) + (if h.3 {
        0nat
    } else {
        1nat
    })
}

/// Whether parity row `p` takes part in the recovery: the first present
/// parity rows, one per missing data shard.
pub open spec fn row_used(h: Presence, has_p0: bool, has_p1: bool, p: int) -> bool {
    let m = missing_count(h);
    if p == 0 {
        has_p0 && m >= 1
    } else {
        has_p1 && (m == 2 || (m == 1 && !has_p0))
    }
}

/// `x` keeps the present data bytes `k` and meets every parity row in use.
pub open spec fn column_solved(h: Presence, k: Quad, p0: Option<u8>, p1: Option<u8>, x: Quad) -> bool {
    &&& forall|i: int| 0 <= i < 4 && present_at(h, i) ==> quad_at(x, i) == quad_at(k, i)
    &&& row_used(h, p0 is Some, p1 is Some, 0) ==> p0 == Some(fec_row(x, 0))
    &&& row_used(h, p0 is Some, p1 is Some, 1) ==> p1 == Some(fec_row(x, 1))
}

pub open spec fn parity_count(p0: Option<u8>, p1: Option<u8>) -> nat {
    (if p0 is Some {
        1nat
    } else {
        0nat
    }) + (if p1 is Some {
        1nat
    } else {
        0nat
    })
}

proof fn lemma_xor_rows(t0: u8, t1: u8, t2: u8, t3: u8, p: u8, u: u8, v: u8)
    by (bit_vector)
    ensures
        t0 == 0u8 && u == p ^ (((t0 ^ t1) ^ t2) ^ t3) ==> (((0u8 ^ u) ^ t1) ^ t2) ^ t3 == p,
        t1 == 0u8 && u == p ^ (((t0 ^ t1) ^ t2) ^ t3) ==> (((0u8 ^ t0) ^ u) ^ t2) ^ t3 == p,
        t2 == 0u8 && u == p ^ (((t0 ^ t1) ^ t2) ^ t3) ==> (((0u8 ^ t0) ^ t1) ^ u) ^ t3 == p,
        t3 == 0u8 && u == p ^ (((t0 ^ t1) ^ t2) ^ t3) ==> (((0u8 ^ t0) ^ t1) ^ t2) ^ u == p,
        t0 == 0u8 && t1 == 0u8 && u ^ v == p ^ (((t0 ^ t1) ^ t2) ^ t3) ==> (((0u8 ^ u) ^ v)
            ^ t2) ^ t3 == p,
        t0 == 0u8 && t2 == 0u8 && u ^ v == p ^ (((t0 ^ t1) ^ t2) ^ t3) ==> (((0u8 ^ u) ^ t1)
            ^ v) ^ t3 == p,
        t0 == 0u8 && t3 == 0u8 && u ^ v == p ^ (((t0 ^ t1) ^ t2) ^ t3) ==> (((0u8 ^ u) ^ t1)
            ^ t2) ^ v == p,
        t1 == 0u8 && t2 == 0u8 && u ^ v == p ^ (((t0 ^ t1) ^ t2) ^ t3) ==> (((0u8 ^ t0) ^ u)
            ^ v) ^ t3 == p,
        t1 == 0u8 && t3 == 0u8 && u ^ v == p ^ (((t0 ^ t1) ^ t2) ^ t3) ==> (((0u8 ^ t0) ^ u)
            ^ t2) ^ v == p,
        t2 == 0u8 && t3 == 0u8 && u ^ v == p ^ (((t0 ^ t1) ^ t2) ^ t3) ==> (((0u8 ^ t0) ^ t1)
            ^ u) ^ v == p,
{
}

proof fn lemma_coef_pivots()
    by (bit_vector)
    ensures
        1u8 ^ 2u8 == 3u8,
        1u8 ^ 4u8 == 5u8,
        1u8 ^ 8u8 == 9u8,
        2u8 ^ 4u8 == 6u8,
        2u8 ^ 8u8 == 10u8,
        4u8 ^ 8u8 == 12u8,
{
}

pub open spec fn quad_rest(t: Quad) -> u8 {
    ((t.0 ^ t.1) ^ t.2) ^ t.3
}

proof fn lemma_row_single(t: Quad, a: int, u: u8, p: u8)
    requires
        0 <= a < 4,
        quad_at(t, a) == 0,
        u == p ^ quad_rest(t),
    ensures
        row_sum(quad_set(t, a, u)) == p,
{
    lemma_xor_rows(t.0, t.1, t.2, t.3, p, u, 0u8);
}

proof fn lemma_row_pair(t: Quad, a: int, b: int, u: u8, v: u8, p: u8)
    requires
        0 <= a < b < 4,
        quad_at(t, a) == 0,
        quad_at(t, b) == 0,
        u ^ v == p ^ quad_rest(t),
    ensures
        row_sum(quad_set(quad_set(t, a, u), b, v)) == p,
{
    lemma_xor_rows(t.0, t.1, t.2, t.3, p, u, v);
}

proof fn lemma_terms_set(x: Quad, p: int, a: int, u: u8)
    requires
        0 <= a < 4,
    ensures
        row_terms(quad_set(x, a, u), p) == quad_set(row_terms(x, p), a, gf_mul(u, audio_row_coef(p, a))),
{
}

proof fn lemma_row0_terms(x: Quad)
    ensures
        row_terms(x, 0) == x,
{
    lemma_gf_mul_one(x.0);
    lemma_gf_mul_one(x.1);
    lemma_gf_mul_one(x.2);
    lemma_gf_mul_one(x.3);
}

fn coef_exec(i: usize) -> (c: u8)
    requires
        i < 4,
    ensures
        c == audio_coef(i as int),
{
    if i == 0 {
        1
    } else if i == 1 {
        2
    } else if i == 2 {
        4
    } else {
        8
    }
}

fn quad_set_exec(x: Quad, i: usize, v: u8) -> (r: Quad)
    requires
        i < 4,
    ensures
        r == quad_set(x, i as int, v),
{
    if i == 0 {
        (v, x.1, x.2, x.3)
    } else if i == 1 {
        (x.0, v, x.2, x.3)
    } else if i == 2 {
        (x.0, x.1, v, x.3)
    } else {
        (x.0, x.1, x.2, v)
    }
}

fn present_at_exec(h: Presence, i: usize) -> (r: bool)
    requires
        i < 4,
    ensures
        r == present_at(h, i as int),
{
    if i == 0 {
        h.0
    } else if i == 1 {
        h.1
    } else if i == 2 {
        h.2
    } else {
        h.3
    }
}

/// Solves one byte column: the present data bytes stay, the missing ones
/// are chosen so that the parity rows in use hold.
fn solve_column(h: Presence, k: Quad, p0: Option<u8>, p1: Option<u8>) -> (x: Quad)
    requires
        missing_count(h) <= 2,
        parity_count(p0, p1) >= missing_count(h),
    ensures
        column_solved(h, k, p0, p1, x),
{
    let t: Quad = (
        if h.0 {
            k.0
        } else {
            0
        },
        if h.1 {
            k.1
        } else {
            0
        },
        if h.2 {
            k.2
        } else {
            0
        },
        if h.3 {
            k.3
        } else {
            0
        },
    );
    let mut a: usize = 4;
    let mut b: usize = 4;
    let mut i: usize = 0;
    while i < 4
        invariant
            i <= 4,
            a <= 4,
            b <= 4,
            a < 4 ==> a < i && !present_at(h, a as int),
            b < 4 ==> a < b && b < i && !present_at(h, b as int),
            forall|j: int|
                0 <= j < i && !present_at(h, j) ==> j == a || j == b,
            b < 4 ==> a < 4,
            missing_count(h) <= 2,
        decreases 4 - i,
    {
        if !present_at_exec(h, i) {
            if a == 4 {
                a = i;
            } else if b == 4 {
                b = i;
            }
        }
        i = i + 1;
    }
    assert(!present_at(h, 0) ==> 0 == a || 0 == b);
    assert(!present_at(h, 1) ==> 1 == a || 1 == b);
    assert(!present_at(h, 2) ==> 2 == a || 2 == b);
    assert(!present_at(h, 3) ==> 3 == a || 3 == b);
    if a == 4 {
        assert(h.0 && h.1 && h.2 && h.3);
        return t;
    }
    proof {
        lemma_row0_terms(t);
        lemma_gf_mul_linear(0u8, 0u8, 1u8, 0u8);
        lemma_gf_mul_linear(0u8, 0u8, 2u8, 0u8);
        lemma_gf_mul_linear(0u8, 0u8, 4u8, 0u8);
        lemma_gf_mul_linear(0u8, 0u8, 8u8, 0u8);
    }
    let rest0 = ((t.0 ^ t.1) ^ t.2) ^ t.3;
    let q: Quad = (gf256_mul(t.0, 1), gf256_mul(t.1, 2), gf256_mul(t.2, 4), gf256_mul(t.3, 8));
    assert(q == row_terms(t, 1));
    let rest1 = ((q.0 ^ q.1) ^ q.2) ^ q.3;
    let ca = coef_exec(a);
    if b == 4 {
        assert(missing_count(h) == 1);
        match p0 {
            Some(pv) => {
                let u = pv ^ rest0;
                let x = quad_set_exec(t, a, u);
                proof {
                    lemma_row0_terms(x);
                    lemma_row_single(t, a as int, u, pv);
                }
                x
            },
            None => {
                let pv = match p1 {
                    Some(v) => v,
                    None => {
                        assert(false);
                        0
                    },
                };
                let inv = small_inverse_exec(ca);
                let u = gf256_mul(pv ^ rest1, inv);
                let x = quad_set_exec(t, a, u);
                proof {
                    lemma_small_inverse(pv ^ rest1, ca);
                    lemma_terms_set(t, 1, a as int, u);
                    lemma_row_single(q, a as int, pv ^ rest1, pv);
                }
                x
            },
        }
    } else {
        assert(missing_count(h) == 2);
        let pv0 = match p0 {
            Some(v) => v,
            None => {
                assert(false);
                0
            },
        };
        let pv1 = match p1 {
            Some(v) => v,
            None => {
                assert(false);
                0
            },
        };
        let cb = coef_exec(b);
        proof {
            lemma_coef_pivots();
        }
        let pivot = ca ^ cb;
        assert(is_small_pivot(pivot));
        let r0 = pv0 ^ rest0;
        let r1 = pv1 ^ rest1;
        let g = gf256_mul(r0, ca);
        let xb = gf256_mul(r1 ^ g, small_inverse_exec(pivot));
        let xa = r0 ^ xb;
        let x1 = quad_set_exec(t, a, xa);
        let x = quad_set_exec(x1, b, xb);
        proof {
            lemma_xor_algebra(r0, xb, xb);
            lemma_xor_algebra(xb, xb, 0u8);
            lemma_row0_terms(x);
            lemma_row_pair(t, a as int, b as int, xa, xb, pv0);
            lemma_gf_mul_linear(r0, xb, ca, cb);
            lemma_gf_mul_linear(xb, 0u8, ca, cb);
            lemma_small_inverse(r1 ^ g, pivot);
            let ga = gf_mul(xb, ca);
            let gb = gf_mul(xb, cb);
            lemma_xor_algebra(g, ga, gb);
            lemma_xor_algebra(g, r1, g);
            lemma_xor_algebra(r1, g, 0u8);
            lemma_xor_algebra(g, g, r1);
            assert(gf_mul(xa, ca) ^ gf_mul(xb, cb) == r1);
            lemma_terms_set(t, 1, a as int, xa);
            lemma_terms_set(x1, 1, b as int, xb);
            lemma_row_pair(q, a as int, b as int, gf_mul(xa, ca), gf_mul(xb, cb), pv1);
        }
        x
    }
}


/// The shards as byte sequences: data `0..4`, then parity rows `4..6`.
pub open spec fn shard_views(s: Seq<Option<Vec<u8>>>) -> Seq<Option<Seq<u8>>> {
    s.map_values(
        |o: Option<Vec<u8>>|
            match o {
                Some(v) => Some(v@),
                None => None,
            },
    )
}

pub open spec fn vec_views(o: Seq<Vec<u8>>) -> Seq<Seq<u8>> {
    o.map_values(|v: Vec<u8>| v@)
}

/// The length of the first present shard from `i` on.
pub open spec fn first_present_len(s: Seq<Option<Seq<u8>>>, i: nat) -> Option<nat>
    decreases 6 - i,
{
    if i >= 6 {
        None
    } else {
        match s[i as int] {
            Some(v) => Some(v.len()),
            None => first_present_len(s, i + 1),
        }
    }
}

pub open spec fn shard_presence(s: Seq<Option<Seq<u8>>>) -> Presence {
    (s[0] is Some, s[1] is Some, s[2] is Some, s[3] is Some)
}

pub open spec fn shard_byte(s: Seq<Option<Seq<u8>>>, i: int, j: int) -> u8 {
    match s[i] {
        Some(v) => v[j],
        None => 0u8,
    }
}

pub open spec fn shard_parity(s: Seq<Option<Seq<u8>>>, i: int, j: int) -> Option<u8> {
    match s[i] {
        Some(v) => Some(v[j]),
        None => None,
    }
}

/// Byte `j` of the four data shards, zero where a shard is missing.
pub open spec fn shard_column(s: Seq<Option<Seq<u8>>>, j: int) -> Quad {
    (shard_byte(s, 0, j), shard_byte(s, 1, j), shard_byte(s, 2, j), shard_byte(s, 3, j))
}

/// Byte `j` of each of four shards.
pub open spec fn column_of(x: Seq<Seq<u8>>, j: int) -> Quad {
    (x[0][j], x[1][j], x[2][j], x[3][j])
}

pub open spec fn bytes_at(a: Seq<u8>, b: Seq<u8>, c: Seq<u8>, d: Seq<u8>, j: int) -> Quad {
    (a[j], b[j], c[j], d[j])
}

/// A present shard whose size is not `len`.
pub open spec fn misfits(o: Option<Seq<u8>>, len: nat) -> bool {
    match o {
        Some(v) => v.len() != len,
        None => false,
    }
}

/// Why a set of shards cannot be recovered, if it cannot: no shard at
/// all; present shards of zero or differing sizes; more than two data
/// shards missing; fewer parity shards than missing data shards.
pub open spec fn fec_recovery_fault(s: Seq<Option<Seq<u8>>>) -> Option<MediaError> {
    match first_present_len(s, 0) {
        None => Some(MediaError::AudioFec(FecFault::NoShards)),
        Some(len) => if len == 0 || exists|i: int| 0 <= i < 6 && misfits(#[trigger] s[i], len) {
            Some(MediaError::AudioFec(FecFault::ShardSize))
        } else if missing_count(shard_presence(s)) > 2 {
            Some(MediaError::AudioFec(FecFault::TooManyMissing))
        } else if parity_count(shard_parity(s, 4, 0), shard_parity(s, 5, 0)) < missing_count(
            shard_presence(s),
        ) {
            Some(MediaError::AudioFec(FecFault::InsufficientParity))
        } else {
            None
        },
    }
}

/// `x` is a full set of data shards of the shards' size that keeps every
/// present data shard and meets, byte by byte, every parity row in use.
pub open spec fn fec_recovered(s: Seq<Option<Seq<u8>>>, x: Seq<Seq<u8>>) -> bool {
    let len = first_present_len(s, 0)->0;
    &&& x.len() == 4
    &&& forall|i: int| 0 <= i < 4 ==> (#[trigger] x[i]).len() == len
    &&& forall|i: int| 0 <= i < 4 && s[i] is Some ==> x[i] == (#[trigger] s[i])->0
    &&& forall|j: int|
        0 <= j < len ==> column_solved(
            shard_presence(s),
            shard_column(s, j),
            shard_parity(s, 4, j),
            shard_parity(s, 5, j),
            #[trigger] column_of(x, j),
        )
}

fn shard_len_at(shards: &[Option<Vec<u8>>; 6], i: usize) -> (r: Option<usize>)
    requires
        i < 6,
    ensures
        match shards@[i as int] {
            Some(v) => r matches Some(l) && l == v@.len(),
            None => r is None,
        },
{
    match &shards[i] {
        Some(v) => Some(v.len()),
        None => None,
    }
}

fn shard_fits(s: &Option<Vec<u8>>, len: usize) -> (r: bool)
    ensures
        r == match *s {
            Some(v) => v@.len() == len,
            None => true,
        },
{
    match s {
        Some(v) => v.len() == len,
        None => true,
    }
}

fn byte_or_zero(s: &Option<Vec<u8>>, j: usize) -> (r: u8)
    requires
        s matches Some(v) ==> j < v@.len(),
    ensures
        r == match *s {
            Some(v) => v@[j as int],
            None => 0u8,
        },
{
    match s {
        Some(v) => v[j],
        None => 0,
    }
}

fn byte_if_present(s: &Option<Vec<u8>>, j: usize) -> (r: Option<u8>)
    requires
        s matches Some(v) ==> j < v@.len(),
    ensures
        r == match *s {
            Some(v) => Some(v@[j as int]),
            None => None::<u8>,
        },
{
    match s {
        Some(v) => Some(v[j]),
        None => None,
    }
}

/// Rebuilds the four data shards from whichever shards arrived (`0..4`
/// data, `4..6` parity). Up to two missing data shards are solved from the
/// first parity rows present, one row per missing shard.
pub fn recover_audio_fec_data(shards: [Option<Vec<u8>>; 6]) -> (r: Result<[Vec<u8>; 4], MediaError>)
    ensures
        match fec_recovery_fault(shard_views(shards@)) {
            Some(e) => r == Err::<[Vec<u8>; 4], MediaError>(e),
            None => r matches Ok(out) && fec_recovered(shard_views(shards@), vec_views(out@)),
        },
{
    let ghost s = shard_views(shards@);
    assert(s.len() == 6);
    assert(forall|i: int| 0 <= i < 6 ==> (#[trigger] s[i]) == match shards@[i] {
        Some(v) => Some(v@),
        None => None::<Seq<u8>>,
    });
    let mut i: usize = 0;
    let mut len: usize = 0;
    loop
        invariant_except_break
            i < 6,
            s == shard_views(shards@),
            s.len() == 6,
            forall|k: int| 0 <= k < 6 ==> (#[trigger] s[k]) == match shards@[k] {
                Some(v) => Some(v@),
                None => None::<Seq<u8>>,
            },
            first_present_len(s, 0) == first_present_len(s, i as nat),
        ensures
            first_present_len(s, 0) == Some(len as nat),
        decreases 6 - i,
    {
        match shard_len_at(&shards, i) {
            Some(l) => {
                len = l;
                proof {
                    let si = s[i as int];
                    assert(si == match shards@[i as int] {
                        Some(v) => Some(v@),
                        None => None::<Seq<u8>>,
                    });
                    assert(si is Some);
                    assert(si->0.len() == l);
                    assert(first_present_len(s, i as nat) == Some(si->0.len()));
                }
                break;
            },
            None => {
                if i == 5 {
                    assert(first_present_len(s, 6) is None);
                    return Err(MediaError::AudioFec(FecFault::NoShards));
                }
                i = i + 1;
            },
        }
    }
    let fits = shard_fits(&shards[0], len) && shard_fits(&shards[1], len) && shard_fits(
        &shards[2],
        len,
    ) && shard_fits(&shards[3], len) && shard_fits(&shards[4], len) && shard_fits(&shards[5], len);
    if len == 0 || !fits {
        proof {
            if len != 0 {
                assert(misfits(s[0], len as nat) || misfits(s[1], len as nat) || misfits(s[2], len as nat)
                    || misfits(s[3], len as nat) || misfits(s[4], len as nat) || misfits(s[5], len as nat));
            }
        }
        return Err(MediaError::AudioFec(FecFault::ShardSize));
    }
    assert(!exists|i: int| 0 <= i < 6 && misfits(#[trigger] s[i], len as nat));
    let h: Presence = (
        shards[0].is_some(),
        shards[1].is_some(),
        shards[2].is_some(),
        shards[3].is_some(),
    );
    assert(h == shard_presence(s));
    let missing: usize = (if h.0 {
        0
    } else {
        1
    }) + (if h.1 {
        0
    } else {
        1
    }) + (if h.2 {
        0
    } else {
        1
    }) + (if h.3 {
        0
    } else {
        1
    });
    if missing > 2 {
        return Err(MediaError::AudioFec(FecFault::TooManyMissing));
    }
    let parity: usize = (if shards[4].is_some() {
        1
    } else {
        0
    }) + (if shards[5].is_some() {
        1
    } else {
        0
    });
    assert(parity == parity_count(shard_parity(s, 4, 0), shard_parity(s, 5, 0)));
    if parity < missing {
        return Err(MediaError::AudioFec(FecFault::InsufficientParity));
    }
    let mut o0: Vec<u8> = Vec::new();
    let mut o1: Vec<u8> = Vec::new();
    let mut o2: Vec<u8> = Vec::new();
    let mut o3: Vec<u8> = Vec::new();
    let mut j: usize = 0;
    while j < len
        invariant
            j <= len,
            s == shard_views(shards@),
            s.len() == 6,
            forall|i: int| 0 <= i < 6 ==> (#[trigger] s[i]) == match shards@[i] {
                Some(v) => Some(v@),
                None => None::<Seq<u8>>,
            },
            forall|i: int| 0 <= i < 6 && (#[trigger] s[i]) is Some ==> s[i]->0.len() == len,
            h == shard_presence(s),
            missing_count(h) <= 2,
            parity_count(shard_parity(s, 4, 0), shard_parity(s, 5, 0)) >= missing_count(h),
            o0@.len() == j,
            o1@.len() == j,
            o2@.len() == j,
            o3@.len() == j,
            forall|jj: int|
                0 <= jj < j ==> column_solved(
                    h,
                    shard_column(s, jj),
                    shard_parity(s, 4, jj),
                    shard_parity(s, 5, jj),
                    #[trigger] bytes_at(o0@, o1@, o2@, o3@, jj),
                ),
        decreases len - j,
    {
        assert(s[0] matches Some(v) ==> v.len() == len);
        assert(s[1] matches Some(v) ==> v.len() == len);
        assert(s[2] matches Some(v) ==> v.len() == len);
        assert(s[3] matches Some(v) ==> v.len() == len);
        assert(s[4] matches Some(v) ==> v.len() == len);
        assert(s[5] matches Some(v) ==> v.len() == len);
        let k: Quad = (
            byte_or_zero(&shards[0], j),
            byte_or_zero(&shards[1], j),
            byte_or_zero(&shards[2], j),
            byte_or_zero(&shards[3], j),
        );
        let p0 = byte_if_present(&shards[4], j);
        let p1 = byte_if_present(&shards[5], j);
        assert(k == shard_column(s, j as int));
        assert(p0 == shard_parity(s, 4, j as int));
        assert(p1 == shard_parity(s, 5, j as int));
        let x = solve_column(h, k, p0, p1);
        let ghost before = (o0@, o1@, o2@, o3@);
        o0.push(x.0);
        o1.push(x.1);
        o2.push(x.2);
        o3.push(x.3);
        proof {
            assert(bytes_at(o0@, o1@, o2@, o3@, j as int) == x);
            assert forall|jj: int| 0 <= jj < j implies bytes_at(o0@, o1@, o2@, o3@, jj) == bytes_at(
                before.0,
                before.1,
                before.2,
                before.3,
                jj,
            ) by {
                assert(o0@[jj] == before.0[jj]);
                assert(o1@[jj] == before.1[jj]);
                assert(o2@[jj] == before.2[jj]);
                assert(o3@[jj] == before.3[jj]);
            }
        }
        j = j + 1;
    }
    let out: [Vec<u8>; 4] = [o0, o1, o2, o3];
    proof {
        let x = vec_views(out@);
        assert(x.len() == 4);
        assert(x[0] == o0@ && x[1] == o1@ && x[2] == o2@ && x[3] == o3@);
        assert forall|jj: int| 0 <= jj < len implies column_solved(
            shard_presence(s),
            shard_column(s, jj),
            shard_parity(s, 4, jj),
            shard_parity(s, 5, jj),
            #[trigger] column_of(x, jj),
        ) by {
            assert(bytes_at(o0@, o1@, o2@, o3@, jj) == column_of(x, jj));
        }
        assert forall|i: int| 0 <= i < 4 && s[i] is Some implies x[i] == (#[trigger] s[i])->0 by {
            assert forall|jj: int| 0 <= jj < len implies x[i][jj] == s[i]->0[jj] by {
                assert(column_solved(
                    shard_presence(s),
                    shard_column(s, jj),
                    shard_parity(s, 4, jj),
                    shard_parity(s, 5, jj),
                    column_of(x, jj),
                ));
                assert(present_at(h, i));
                assert(quad_at(shard_column(s, jj), i) == s[i]->0[jj]);
            }
            assert(x[i] =~= s[i]->0);
        }
    }
    Ok(out)
}

proof fn lemma_xor_cancel(t0: u8, t1: u8, t2: u8, t3: u8, u1: u8, v1: u8, u2: u8, v2: u8)
    by (bit_vector)
    ensures
        (((0u8 ^ u1) ^ t1) ^ t2) ^ t3 == (((0u8 ^ u2) ^ t1) ^ t2) ^ t3 ==> u1 == u2,
        (((0u8 ^ t0) ^ u1) ^ t2) ^ t3 == (((0u8 ^ t0) ^ u2) ^ t2) ^ t3 ==> u1 == u2,
        (((0u8 ^ t0) ^ t1) ^ u1) ^ t3 == (((0u8 ^ t0) ^ t1) ^ u2) ^ t3 ==> u1 == u2,
        (((0u8 ^ t0) ^ t1) ^ t2) ^ u1 == (((0u8 ^ t0) ^ t1) ^ t2) ^ u2 ==> u1 == u2,
        (((0u8 ^ u1) ^ v1) ^ t2) ^ t3 == (((0u8 ^ u2) ^ v2) ^ t2) ^ t3 ==> u1 ^ v1 == u2 ^ v2,
        (((0u8 ^ u1) ^ t1) ^ v1) ^ t3 == (((0u8 ^ u2) ^ t1) ^ v2) ^ t3 ==> u1 ^ v1 == u2 ^ v2,
        (((0u8 ^ u1) ^ t1) ^ t2) ^ v1 == (((0u8 ^ u2) ^ t1) ^ t2) ^ v2 ==> u1 ^ v1 == u2 ^ v2,
        (((0u8 ^ t0) ^ u1) ^ v1) ^ t3 == (((0u8 ^ t0) ^ u2) ^ v2) ^ t3 ==> u1 ^ v1 == u2 ^ v2,
        (((0u8 ^ t0) ^ u1) ^ t2) ^ v1 == (((0u8 ^ t0) ^ u2) ^ t2) ^ v2 ==> u1 ^ v1 == u2 ^ v2,
        (((0u8 ^ t0) ^ t1) ^ u1) ^ v1 == (((0u8 ^ t0) ^ t1) ^ u2) ^ v2 ==> u1 ^ v1 == u2 ^ v2,
        u1 ^ v1 == u2 ^ v2 ==> u1 ^ u2 == v1 ^ v2,
        u1 ^ u2 == 0u8 ==> u1 == u2,
        u1 ^ u1 == 0u8,
{
}

proof fn lemma_column_unique(h: Presence, k: Quad, p0: Option<u8>, p1: Option<u8>, x: Quad, y: Quad)
    requires
        missing_count(h) <= 2,
        parity_count(p0, p1) >= missing_count(h),
        column_solved(h, k, p0, p1, x),
        column_solved(h, k, p0, p1, y),
    ensures
        x == y,
{
    assert(present_at(h, 0) ==> x.0 == y.0);
    assert(present_at(h, 1) ==> x.1 == y.1);
    assert(present_at(h, 2) ==> x.2 == y.2);
    assert(present_at(h, 3) ==> x.3 == y.3);
    if missing_count(h) == 0 {
        return;
    }
    let a: int = if !h.0 {
        0
    } else if !h.1 {
        1
    } else if !h.2 {
        2
    } else {
        3
    };
    if missing_count(h) == 1 {
        let p: int = if p0 is Some {
            0
        } else {
            1
        };
        assert(row_used(h, p0 is Some, p1 is Some, p));
        let c = audio_row_coef(p, a);
        assert(is_small_pivot(c));
        let tx = row_terms(x, p);
        assert(y == quad_set(x, a, quad_at(y, a)));
        lemma_terms_set(x, p, a, quad_at(y, a));
        assert(tx == quad_set(tx, a, gf_mul(quad_at(x, a), c)));
        assert(fec_row(x, p) == fec_row(y, p));
        lemma_xor_cancel(
            tx.0,
            tx.1,
            tx.2,
            tx.3,
            gf_mul(quad_at(x, a), c),
            0u8,
            gf_mul(quad_at(y, a), c),
            0u8,
        );
        lemma_small_inverse(quad_at(x, a), c);
        lemma_small_inverse(quad_at(y, a), c);
        assert(quad_at(x, a) == quad_at(y, a));
    } else {
        let b: int = if a < 1 && !h.1 {
            1
        } else if a < 2 && !h.2 {
            2
        } else {
            3
        };
        assert(!present_at(h, a) && !present_at(h, b) && a < b);
        assert(row_used(h, p0 is Some, p1 is Some, 0));
        assert(row_used(h, p0 is Some, p1 is Some, 1));
        let (xa, xb, ya, yb) = (quad_at(x, a), quad_at(x, b), quad_at(y, a), quad_at(y, b));
        assert(y == quad_set(quad_set(x, a, ya), b, yb));
        assert(x == quad_set(quad_set(x, a, xa), b, xb));
        lemma_row0_terms(x);
        lemma_row0_terms(y);
        lemma_xor_cancel(x.0, x.1, x.2, x.3, xa, xb, ya, yb);
        assert(xa ^ xb == ya ^ yb);
        let ca = audio_coef(a);
        let cb = audio_coef(b);
        let tx = row_terms(x, 1);
        lemma_terms_set(x, 1, a, ya);
        lemma_terms_set(quad_set(x, a, ya), 1, b, yb);
        lemma_terms_set(x, 1, a, xa);
        lemma_terms_set(quad_set(x, a, xa), 1, b, xb);
        assert(row_terms(y, 1) == quad_set(quad_set(tx, a, gf_mul(ya, ca)), b, gf_mul(yb, cb)));
        assert(tx == quad_set(quad_set(tx, a, gf_mul(xa, ca)), b, gf_mul(xb, cb)));
        lemma_xor_cancel(
            tx.0,
            tx.1,
            tx.2,
            tx.3,
            gf_mul(xa, ca),
            gf_mul(xb, cb),
            gf_mul(ya, ca),
            gf_mul(yb, cb),
        );
        let gxa = gf_mul(xa, ca);
        let gxb = gf_mul(xb, cb);
        let gya = gf_mul(ya, ca);
        let gyb = gf_mul(yb, cb);
        lemma_xor_cancel(0u8, 0u8, 0u8, 0u8, gxa, gxb, gya, gyb);
        assert(gxa ^ gya == gxb ^ gyb);
        lemma_xor_cancel(0u8, 0u8, 0u8, 0u8, xa, xb, ya, yb);
        let d = xa ^ ya;
        assert(d == xb ^ yb);
        lemma_gf_mul_linear(xa, ya, ca, cb);
        lemma_gf_mul_linear(xb, yb, cb, ca);
        assert(gf_mul(d, ca) == gf_mul(d, cb));
        lemma_gf_mul_linear(d, 0u8, ca, cb);
        lemma_xor_cancel(0u8, 0u8, 0u8, 0u8, gf_mul(d, ca), 0u8, gf_mul(d, cb), 0u8);
        assert(gf_mul(d, ca ^ cb) == 0u8);
        lemma_coef_pivots();
        assert(is_small_pivot(ca ^ cb));
        lemma_small_inverse(d, ca ^ cb);
        lemma_gf_mul_linear(0u8, 0u8, small_inverse(ca ^ cb), 0u8);
        assert(d == 0u8);
        lemma_xor_cancel(0u8, 0u8, 0u8, 0u8, xa, 0u8, ya, 0u8);
        lemma_xor_cancel(0u8, 0u8, 0u8, 0u8, xb, 0u8, yb, 0u8);
        assert(xa == ya);
        assert(xb == yb);
    }
}

/// What the erasure code promises: when the shards that arrived are taken
/// from four data shards and the two parity rows computed from them, and
/// at most two data shards are lost with parity enough to cover them, the
/// only set that recovery can hand back is the original data.
pub proof fn law_audio_fec_recovers_encoded_data(
    s: Seq<Option<Seq<u8>>>,
    data: Seq<Seq<u8>>,
    out: Seq<Seq<u8>>,
)
    requires
        s.len() == 6,
        data.len() == 4,
        forall|i: int| 0 <= i < 4 ==> (#[trigger] data[i]).len() == data[0].len(),
        forall|i: int| 0 <= i < 4 && s[i] is Some ==> (#[trigger] s[i])->0 == data[i],
        forall|p: int|
            0 <= p < 2 && s[4 + p] is Some ==> (#[trigger] s[4 + p])->0.len() == data[0].len()
                && forall|j: int|
                0 <= j < data[0].len() ==> s[4 + p]->0[j] == fec_row(column_of(data, j), p),
        fec_recovery_fault(s) is None,
        fec_recovered(s, out),
    ensures
        out == data,
{
    reveal_with_fuel(first_present_len, 7);
    let len = first_present_len(s, 0)->0;
    assert(len == data[0].len()) by {
        if s[0] is Some {
        } else if s[1] is Some {
        } else if s[2] is Some {
        } else if s[3] is Some {
        } else if s[4] is Some {
            assert(s[4 + 0int] is Some);
        } else {
            assert(s[4 + 1int] is Some);
        }
    }
    let h = shard_presence(s);
    assert forall|j: int| 0 <= j < len implies column_of(out, j) == column_of(data, j) by {
        let k = shard_column(s, j);
        let p0 = shard_parity(s, 4, j);
        let p1 = shard_parity(s, 5, j);
        assert(column_solved(h, k, p0, p1, column_of(out, j)));
        assert(s[4] is Some ==> s[4 + 0int] is Some);
        assert(s[5] is Some ==> s[4 + 1int] is Some);
        assert(p0 is Some ==> p0 == Some(fec_row(column_of(data, j), 0)));
        assert(p1 is Some ==> p1 == Some(fec_row(column_of(data, j), 1)));
        assert(present_at(h, 0) ==> quad_at(k, 0) == data[0][j]);
        assert(present_at(h, 1) ==> quad_at(k, 1) == data[1][j]);
        assert(present_at(h, 2) ==> quad_at(k, 2) == data[2][j]);
        assert(present_at(h, 3) ==> quad_at(k, 3) == data[3][j]);
        assert(column_solved(h, k, p0, p1, column_of(data, j)));
        assert(parity_count(p0, p1) == parity_count(shard_parity(s, 4, 0), shard_parity(s, 5, 0)));
        lemma_column_unique(h, k, p0, p1, column_of(out, j), column_of(data, j));
    }
    assert forall|i: int| 0 <= i < 4 implies out[i] == data[i] by {
        assert forall|j: int| 0 <= j < len implies out[i][j] == data[i][j] by {
            assert(column_of(out, j) == column_of(data, j));
        }
        assert(out[i] =~= data[i]);
    }
    assert(out =~= data);
}
/// How many of the six shards were lost.
pub open spec fn erased_count(s: Seq<Option<Seq<u8>>>) -> nat {
    (if s[0] is None { 1nat } else { 0nat }) + (if s[1] is None { 1nat } else { 0nat }) + (if s[2] is None {
        1nat
    } else {
        0nat
    }) + (if s[3] is None { 1nat } else { 0nat }) + (if s[4] is None { 1nat } else { 0nat }) + (if s[5]
        is None {
        1nat
    } else {
        0nat
    })
}

/// What the erasure code is for: take four data shards of one non-zero
/// size and the two parity rows computed from them, lose any one or two of
/// the six, and recovery neither fails nor hands back anything but the
/// original data.
pub proof fn law_audio_fec_survives_two_erasures(s: Seq<Option<Seq<u8>>>, data: Seq<Seq<u8>>)
    requires
        s.len() == 6,
        data.len() == 4,
        data[0].len() > 0,
        forall|i: int| 0 <= i < 4 ==> (#[trigger] data[i]).len() == data[0].len(),
        forall|i: int| 0 <= i < 4 && s[i] is Some ==> (#[trigger] s[i])->0 == data[i],
        forall|p: int|
            0 <= p < 2 && s[4 + p] is Some ==> (#[trigger] s[4 + p])->0.len() == data[0].len()
                && forall|j: int|
                0 <= j < data[0].len() ==> s[4 + p]->0[j] == fec_row(column_of(data, j), p),
        erased_count(s) <= 2,
    ensures
        fec_recovery_fault(s) is None,
        forall|out: Seq<Seq<u8>>| fec_recovered(s, out) ==> out == data,
{
    reveal_with_fuel(first_present_len, 7);
    let n = data[0].len();
    assert(s[4] is Some ==> s[4 + 0int] is Some);
    assert(s[5] is Some ==> s[4 + 1int] is Some);
    assert(s[0] is Some ==> s[0]->0.len() == n) by {
        if s[0] is Some {
            assert(data[0].len() == n);
        }
    }
    assert(s[1] is Some ==> s[1]->0.len() == n) by {
        if s[1] is Some {
            assert(data[1].len() == n);
        }
    }
    assert(s[2] is Some ==> s[2]->0.len() == n) by {
        if s[2] is Some {
            assert(data[2].len() == n);
        }
    }
    assert(s[3] is Some ==> s[3]->0.len() == n) by {
        if s[3] is Some {
            assert(data[3].len() == n);
        }
    }
    assert(s[4] is Some ==> s[4]->0.len() == n);
    assert(s[5] is Some ==> s[5]->0.len() == n);
    assert(first_present_len(s, 0) == Some(n));
    assert(!exists|i: int| 0 <= i < 6 && misfits(#[trigger] s[i], n)) by {
        assert forall|i: int| 0 <= i < 6 implies !misfits(#[trigger] s[i], n) by {
            if i == 0 {
            } else if i == 1 {
            } else if i == 2 {
            } else if i == 3 {
            } else if i == 4 {
            } else {
            }
        }
    }
    assert(fec_recovery_fault(s) is None);
    assert forall|out: Seq<Seq<u8>>| fec_recovered(s, out) implies out == data by {
        law_audio_fec_recovers_encoded_data(s, data, out);
    }
}

/// The payloads of audio packets.
pub open spec fn packet_payloads(d: Seq<AudioPacketView>) -> Seq<Seq<u8>> {
    d.map_values(|p: AudioPacketView| p.payload)
}

proof fn lemma_first_audio_record_fault(d: Seq<AudioPacketView>, k: nat, i: int)
    requires
        first_audio_record_fault(d, k) is None,
        k <= i < d.len(),
    ensures
        audio_record_fault(d[i]) is None,
    decreases i - k,
{
    if k < i {
        lemma_first_audio_record_fault(d, k + 1, i);
    }
}

proof fn lemma_first_fec_shard_fault(d: Seq<AudioPacketView>, k: nat, i: int)
    requires
        first_fec_shard_fault(d, k) is None,
        k <= i < d.len(),
    ensures
        fec_shard_fault(d, i) is None,
    decreases i - k,
{
    if k < i {
        lemma_first_fec_shard_fault(d, k + 1, i);
    }
}

/// The sender's parity rows are the rows the receiver solves against:
/// byte `j` of parity row `p` built from four packets is that row of the
/// packets' byte column `j`.
pub proof fn lemma_parity_rows_are_fec_rows(d: Seq<AudioPacketView>, p: int, j: int)
    requires
        d.len() == 4,
    ensures
        audio_parity_byte(d, p, j, 4) == fec_row(column_of(packet_payloads(d), j), p),
{
    reveal_with_fuel(audio_parity_byte, 5);
    let x = packet_payloads(d);
    assert(x[0] == d[0].payload && x[1] == d[1].payload && x[2] == d[2].payload && x[3] == d[3].payload);
}

/// What the audio erasure code is for, from end to end: build the two
/// parity shards of four packets as the sender does, lose any one or two
/// of the six shards, and the receiver recovers the four payloads without
/// fault and without anything else to choose from.
///
/// `audio_fec_parity_records` returns the rows `audio_parity_row` of its
/// packets, and `recover_audio_fec_data` returns `Ok` of a set that is
/// `fec_recovered` exactly when the shards' `fec_recovery_fault` is
/// `None`; so recovering from any one or two lost shards returns the
/// packets' payloads.
pub proof fn law_audio_fec_round_trip(d: Seq<AudioPacketView>, s: Seq<Option<Seq<u8>>>)
    requires
        audio_fec_fault(d) is None,
        s.len() == 6,
        forall|i: int| 0 <= i < 4 && s[i] is Some ==> (#[trigger] s[i])->0 == d[i].payload,
        forall|p: int|
            0 <= p < 2 && s[4 + p] is Some ==> (#[trigger] s[4 + p])->0 == audio_parity_row(d, p).payload,
        erased_count(s) <= 2,
    ensures
        fec_recovery_fault(s) is None,
        forall|out: Seq<Seq<u8>>| fec_recovered(s, out) ==> out == packet_payloads(d),
{
    let x = packet_payloads(d);
    assert(d.len() == 4);
    lemma_first_audio_record_fault(d, 0, 0);
    assert forall|i: int| 0 <= i < 4 implies (#[trigger] x[i]).len() == x[0].len() by {
        lemma_first_fec_shard_fault(d, 0, i);
    }
    assert forall|i: int| 0 <= i < 4 && s[i] is Some implies (#[trigger] s[i])->0 == x[i] by {}
    assert forall|p: int|
        0 <= p < 2 && s[4 + p] is Some implies (#[trigger] s[4 + p])->0.len() == x[0].len()
            && forall|j: int| 0 <= j < x[0].len() ==> s[4 + p]->0[j] == fec_row(column_of(x, j), p) by {
        assert forall|j: int| 0 <= j < x[0].len() implies s[4 + p]->0[j] == fec_row(column_of(x, j), p) by {
            lemma_parity_rows_are_fec_rows(d, p, j);
        }
    }
    law_audio_fec_survives_two_erasures(s, x);
}

} // verus!
