//! The luma tracker for Move controller lights: its configuration, the
//! GPU dispatch plan it implies, and the integer statistics of each tile.
use vstd::prelude::*;

verus! {

pub const MUNINN_MOVE_TRACKER_OK: i32 = 0;

pub const MUNINN_MOVE_TRACKER_NULL: i32 = -1;

pub const MUNINN_MOVE_TRACKER_INVALID: i32 = -2;

/// How a luma frame is laid out and which bright spots count.
#[derive(Clone, Copy, Debug, PartialEq, Eq, Structural)]
pub struct MoveTrackerConfig {
    pub width: u32,
    pub height: u32,
    pub stride_bytes: u32,
    pub tile_size: u32,
    pub threshold_min: u8,
    pub min_area_px: u32,
    pub max_candidates: u32,
    pub source_id_hash: u64,
    pub frame_sequence: u64,
}

impl Default for MoveTrackerConfig {
    fn default() -> (r: Self)
        ensures
            r == (MoveTrackerConfig {
                width: 320,
                height: 240,
                stride_bytes: 320,
                tile_size: 16,
                threshold_min: 180,
                min_area_px: 4,
                max_candidates: 64,
                source_id_hash: 0,
                frame_sequence: 0,
            }),
    {
        MoveTrackerConfig {
            width: 320,
            height: 240,
            stride_bytes: 320,
            tile_size: 16,
            threshold_min: 180,
            min_area_px: 4,
            max_candidates: 64,
            source_id_hash: 0,
            frame_sequence: 0,
        }
    }
}

/// The work groups that cover a frame, one per tile.
#[derive(Clone, Copy, Debug, PartialEq, Eq, Structural)]
pub struct MoveTrackerDispatchPlan {
    pub group_size_x: u32,
    pub group_size_y: u32,
    pub groups_x: u32,
    pub groups_y: u32,
    pub max_candidates: u32,
}

/// A configuration the tracker accepts: a non-empty frame whose rows fit
/// their stride, 16-pixel tiles, and positive area and candidate limits.
pub open spec fn config_valid(c: MoveTrackerConfig) -> bool {
    &&& c.width > 0
    &&& c.height > 0
    &&& c.stride_bytes >= c.width
    &&& c.tile_size == 16
    &&& c.min_area_px > 0
    &&& c.max_candidates > 0
}

/// `n / d` rounded up.
pub open spec fn div_ceil(n: nat, d: nat) -> nat {
    n / d + if n % d != 0 {
        1nat
    } else {
        0nat
    }
}

/// Whether the tracker accepts a configuration.
pub fn config_is_valid(config: MoveTrackerConfig) -> (r: bool)
    ensures
        r == config_valid(config),
{
    config.width > 0 && config.height > 0 && config.stride_bytes >= config.width
        && config.tile_size == 16 && config.min_area_px > 0 && config.max_candidates > 0
}

fn div_ceil_u32(n: u32, d: u32) -> (r: u32)
    requires
        d > 0,
    ensures
        r == div_ceil(n as nat, d as nat),
{
    let q = n / d;
    if n % d != 0 {
        assert(q < 0xffff_ffff) by (nonlinear_arith)
            requires
                d > 0,
                n % d != 0,
                q == n / d,
                n <= 0xffff_ffff,
        {
            assert(d != 1);
            assert(q * d <= n);
        }
        q + 1
    } else {
        q
    }
}

/// The dispatch plan of a valid configuration: one group per tile, the
/// last row and column of tiles possibly partial.
pub fn dispatch_plan(config: MoveTrackerConfig) -> (r: Option<MoveTrackerDispatchPlan>)
    ensures
        r == if config_valid(config) {
            Some(
                MoveTrackerDispatchPlan {
                    group_size_x: config.tile_size,
                    group_size_y: config.tile_size,
                    groups_x: div_ceil(config.width as nat, config.tile_size as nat) as u32,
                    groups_y: div_ceil(config.height as nat, config.tile_size as nat) as u32,
                    max_candidates: config.max_candidates,
                },
            )
        } else {
            None::<MoveTrackerDispatchPlan>
        },
{
    if !config_is_valid(config) {
        return None;
    }
    let tile = config.tile_size;
    Some(
        MoveTrackerDispatchPlan {
            group_size_x: tile,
            group_size_y: tile,
            groups_x: div_ceil_u32(config.width, tile),
            groups_y: div_ceil_u32(config.height, tile),
            max_candidates: config.max_candidates,
        },
    )
}

/// The bytes a frame needs: `height` rows of `stride_bytes`, when that
/// fits in `usize`.
pub fn required_frame_bytes(config: MoveTrackerConfig) -> (r: Option<usize>)
    ensures
        r == if config.height * config.stride_bytes <= usize::MAX {
            Some((config.height * config.stride_bytes) as usize)
        } else {
            None::<usize>
        },
{
    let rows = config.height as usize;
    let stride = config.stride_bytes as usize;
    rows.checked_mul(stride)
}

/// Running measurements of a tile's bright pixels.
pub ghost struct LumaSums {
    pub area: nat,
    pub peak: nat,
    pub sum_x: nat,
    pub sum_y: nat,
    pub sum_w: nat,
}

pub open spec fn no_sums() -> LumaSums {
    LumaSums { area: 0, peak: 0, sum_x: 0, sum_y: 0, sum_w: 0 }
}

/// One pixel counted in: one below the threshold is skipped; a bright one
/// weighs its luma above the threshold, plus one.
pub open spec fn add_pixel(s: LumaSums, luma: nat, threshold: nat, x: nat, y: nat) -> LumaSums {
    if luma < threshold {
        s
    } else {
        let w = (luma - threshold + 1) as nat;
        LumaSums {
            area: s.area + 1,
            peak: if luma > s.peak {
                luma
            } else {
                s.peak
            },
            sum_x: s.sum_x + x * w,
            sum_y: s.sum_y + y * w,
            sum_w: s.sum_w + w,
        }
    }
}

/// The luma of pixel `(x, y)`.
pub open spec fn luma_at(frame: Seq<u8>, c: MoveTrackerConfig, x: int, y: int) -> nat {
    frame[y * c.stride_bytes + x] as nat
}

/// Pixels `x0..x` of row `y` counted into `s`, left to right.
pub open spec fn row_sums(
    frame: Seq<u8>,
    c: MoveTrackerConfig,
    y: int,
    x0: int,
    x: int,
    s: LumaSums,
) -> LumaSums
    decreases x - x0,
{
    if x <= x0 {
        s
    } else {
        add_pixel(
            row_sums(frame, c, y, x0, x - 1, s),
            luma_at(frame, c, x - 1, y),
            c.threshold_min as nat,
            (x - 1) as nat,
            y as nat,
        )
    }
}

/// Rows `y0..y` of columns `x0..x1`, top to bottom.
pub open spec fn rect_sums(
    frame: Seq<u8>,
    c: MoveTrackerConfig,
    x0: int,
    x1: int,
    y0: int,
    y: int,
) -> LumaSums
    decreases y - y0,
{
    if y <= y0 {
        no_sums()
    } else {
        row_sums(frame, c, y - 1, x0, x1, rect_sums(frame, c, x0, x1, y0, y - 1))
    }
}

pub open spec fn min_int(a: int, b: int) -> int {
    if a < b {
        a
    } else {
        b
    }
}

/// The measurements of tile `(tx, ty)`; the last tiles of a row or a
/// column stop at the frame's edge.
pub open spec fn tile_sums(frame: Seq<u8>, c: MoveTrackerConfig, tx: int, ty: int) -> LumaSums {
    let x0 = tx * c.tile_size;
    let y0 = ty * c.tile_size;
    rect_sums(
        frame,
        c,
        x0,
        min_int(x0 + c.tile_size, c.width as int),
        y0,
        min_int(y0 + c.tile_size, c.height as int),
    )
}

/// A tile holds a marker candidate: enough bright pixels, with weight.
pub open spec fn tile_found(s: LumaSums, c: MoveTrackerConfig) -> bool {
    s.area >= c.min_area_px && s.sum_w > 0
}

/// The integer measurements of a candidate tile, from which its centre
/// (`sum_x / sum_w`, `sum_y / sum_w`), radius, mean luma and score follow.
#[derive(Clone, Copy, Debug, PartialEq, Eq, Structural)]
pub struct TileLumaStats {
    pub tile_x: u32,
    pub tile_y: u32,
    pub area_px: u32,
    pub peak_luma: u32,
    pub sum_x: u64,
    pub sum_y: u64,
    pub sum_w: u64,
}

pub open spec fn stats_match(t: TileLumaStats, tx: int, ty: int, s: LumaSums) -> bool {
    &&& t.tile_x == tx
    &&& t.tile_y == ty
    &&& t.area_px == s.area
    &&& t.peak_luma == s.peak
    &&& t.sum_x == s.sum_x
    &&& t.sum_y == s.sum_y
    &&& t.sum_w == s.sum_w
}

/// A frame that holds `height` rows of `stride_bytes`.
pub open spec fn frame_fits(frame: Seq<u8>, c: MoveTrackerConfig) -> bool {
    frame.len() >= c.height * c.stride_bytes
}

proof fn lemma_pixel_index(c: MoveTrackerConfig, x: int, y: int)
    requires
        0 <= x < c.width,
        0 <= y < c.height,
        c.width <= c.stride_bytes,
    ensures
        y * c.stride_bytes <= c.height * c.stride_bytes,
        y * c.stride_bytes + x < c.height * c.stride_bytes,
{
    assert(y * c.stride_bytes + c.stride_bytes <= c.height * c.stride_bytes) by (nonlinear_arith)
        requires
            0 <= y < c.height,
            c.stride_bytes >= 0,
    ;
}

proof fn lemma_weighted(x: int, w: int)
    requires
        0 <= x < 0x1_0000_0000,
        0 <= w <= 256,
    ensures
        x * w <= 0x100_0000_0000,
{
    assert(x * w <= 0x100_0000_0000) by (nonlinear_arith)
        requires
            0 <= x < 0x1_0000_0000,
            0 <= w <= 256,
    ;
}

/// The measurements of one tile of a frame.
pub fn tile_luma_stats(frame: &[u8], config: MoveTrackerConfig, tile_x: u32, tile_y: u32) -> (r:
    Option<TileLumaStats>)
    requires
        config_valid(config),
        frame_fits(frame@, config),
        tile_x * 16 < config.width,
        tile_y * 16 < config.height,
    ensures
        match r {
            Some(t) => tile_found(tile_sums(frame@, config, tile_x as int, tile_y as int), config)
                && stats_match(
                t,
                tile_x as int,
                tile_y as int,
                tile_sums(frame@, config, tile_x as int, tile_y as int),
            ),
            None => !tile_found(tile_sums(frame@, config, tile_x as int, tile_y as int), config),
        },
{
    let x0: u64 = tile_x as u64 * 16;
    let y0: u64 = tile_y as u64 * 16;
    let x1: u64 = if x0 + 16 < config.width as u64 {
        x0 + 16
    } else {
        config.width as u64
    };
    let y1: u64 = if y0 + 16 < config.height as u64 {
        y0 + 16
    } else {
        config.height as u64
    };
    let ghost fr = frame@;
    let n: usize = frame.len();
    assert(tile_x * config.tile_size == x0);
    assert(tile_y * config.tile_size == y0);
    let threshold: u32 = config.threshold_min as u32;
    let mut area: u32 = 0;
    let mut peak: u32 = 0;
    let mut sum_x: u64 = 0;
    let mut sum_y: u64 = 0;
    let mut sum_w: u64 = 0;
    let mut y: u64 = y0;
    while y < y1
        invariant
            config_valid(config),
            frame_fits(fr, config),
            fr == frame@,
            n == fr.len(),
            threshold == config.threshold_min,
            x0 < x1 <= config.width,
            x1 - x0 <= 16,
            y0 <= y <= y1 <= config.height,
            y1 - y0 <= 16,
            ({
                let s = rect_sums(fr, config, x0 as int, x1 as int, y0 as int, y as int);
                &&& area == s.area
                &&& peak == s.peak
                &&& sum_x == s.sum_x
                &&& sum_y == s.sum_y
                &&& sum_w == s.sum_w
            }),
            area <= (y - y0) * 16,
            peak <= 255,
            sum_w <= area * 256,
            sum_x <= area * 0x100_0000_0000,
            sum_y <= area * 0x100_0000_0000,
        decreases y1 - y,
    {
        proof {
            lemma_pixel_index(config, x0 as int, y as int);
        }
        let row: usize = (y as usize) * (config.stride_bytes as usize);
        let ghost base = rect_sums(fr, config, x0 as int, x1 as int, y0 as int, y as int);
        let mut x: u64 = x0;
        while x < x1
            invariant
                config_valid(config),
                frame_fits(fr, config),
                fr == frame@,
                n == fr.len(),
                threshold == config.threshold_min,
                x0 <= x <= x1 <= config.width,
                x1 - x0 <= 16,
                y0 <= y < y1 <= config.height,
                y1 - y0 <= 16,
                row == y * config.stride_bytes,
                ({
                    let s = row_sums(fr, config, y as int, x0 as int, x as int, base);
                    &&& area == s.area
                    &&& peak == s.peak
                    &&& sum_x == s.sum_x
                    &&& sum_y == s.sum_y
                    &&& sum_w == s.sum_w
                }),
                area <= (y - y0) * 16 + (x - x0),
                peak <= 255,
                sum_w <= area * 256,
                sum_x <= area * 0x100_0000_0000,
                sum_y <= area * 0x100_0000_0000,
            decreases x1 - x,
        {
            proof {
                lemma_pixel_index(config, x as int, y as int);
            }
            let luma: u32 = frame[row + x as usize] as u32;
            assert(luma == luma_at(fr, config, x as int, y as int));
            if luma >= threshold {
                let w: u64 = (luma - threshold + 1) as u64;
                proof {
                    lemma_weighted(x as int, w as int);
                    lemma_weighted(y as int, w as int);
                }
                area = area + 1;
                if luma > peak {
                    peak = luma;
                }
                sum_x = sum_x + x * w;
                sum_y = sum_y + y * w;
                sum_w = sum_w + w;
            }
            x = x + 1;
        }
        y = y + 1;
    }
    if area < config.min_area_px || sum_w == 0 {
        None
    } else {
        Some(
            TileLumaStats {
                tile_x,
                tile_y,
                area_px: area,
                peak_luma: peak,
                sum_x,
                sum_y,
                sum_w,
            },
        )
    }
}

/// Candidate tiles in scan order, row by row, from tile `(tx, ty)` on,
/// after `acc`: a scan stops, cut short, when it comes to a tile with
/// `max_candidates` candidates already found.
pub open spec fn scan_tiles(
    frame: Seq<u8>,
    c: MoveTrackerConfig,
    ty: int,
    tx: int,
    acc: Seq<(int, int, LumaSums)>,
) -> (Seq<(int, int, LumaSums)>, bool)
    decreases div_ceil(c.height as nat, 16) - ty, div_ceil(c.width as nat, 16) - tx,
{
    if ty >= div_ceil(c.height as nat, 16) {
        (acc, false)
    } else if tx >= div_ceil(c.width as nat, 16) {
        scan_tiles(frame, c, ty + 1, 0, acc)
    } else if acc.len() >= c.max_candidates {
        (acc, true)
    } else {
        let s = tile_sums(frame, c, tx, ty);
        scan_tiles(
            frame,
            c,
            ty,
            tx + 1,
            if tile_found(s, c) {
                acc.push((tx, ty, s))
            } else {
                acc
            },
        )
    }
}

pub open spec fn tiles_match(t: Seq<TileLumaStats>, acc: Seq<(int, int, LumaSums)>) -> bool {
    &&& t.len() == acc.len()
    &&& forall|i: int| 0 <= i < t.len() ==> stats_match(#[trigger] t[i], acc[i].0, acc[i].1, acc[i].2)
}

proof fn lemma_tile_inside(t: nat, n: nat)
    requires
        t < div_ceil(n, 16),
    ensures
        t * 16 < n,
{
    let q = n / 16;
    let m = n % 16;
    assert(n == 16 * q + m && 0 <= m < 16);
}

/// The candidate tiles of a frame in scan order, and whether the candidate
/// limit cut the scan short; `None` for a configuration the tracker
/// refuses or a frame too short for it.
pub fn scan_marker_tiles(frame: &[u8], config: MoveTrackerConfig) -> (r: Option<
    (Vec<TileLumaStats>, bool),
>)
    ensures
        r is None <==> !(config_valid(config) && frame_fits(frame@, config)),
        r matches Some((tiles, cut)) ==> ({
            let found = scan_tiles(frame@, config, 0, 0, Seq::empty());
            tiles_match(tiles@, found.0) && cut == found.1
        }),
{
    if !config_is_valid(config) {
        return None;
    }
    let required = match required_frame_bytes(config) {
        Some(n) => n,
        None => {
            let frame_len: usize = frame.len();
            assert(frame@.len() == frame_len);
            return None;
        },
    };
    if frame.len() < required {
        return None;
    }
    let plan = match dispatch_plan(config) {
        Some(p) => p,
        None => { return None; },
    };
    let groups_x = plan.groups_x;
    let groups_y = plan.groups_y;
    let ghost fr = frame@;
    let ghost mut acc: Seq<(int, int, LumaSums)> = Seq::empty();
    let mut out: Vec<TileLumaStats> = Vec::new();
    let mut ty: u32 = 0;
    while ty < groups_y
        invariant
            config_valid(config),
            frame_fits(fr, config),
            fr == frame@,
            groups_x == div_ceil(config.width as nat, 16),
            groups_y == div_ceil(config.height as nat, 16),
            ty <= groups_y,
            tiles_match(out@, acc),
            scan_tiles(fr, config, 0, 0, Seq::empty()) == scan_tiles(fr, config, ty as int, 0, acc),
        decreases groups_y - ty,
    {
        let mut tx: u32 = 0;
        while tx < groups_x
            invariant
                config_valid(config),
                frame_fits(fr, config),
                fr == frame@,
                groups_x == div_ceil(config.width as nat, 16),
                groups_y == div_ceil(config.height as nat, 16),
                ty < groups_y,
                tx <= groups_x,
                tiles_match(out@, acc),
                scan_tiles(fr, config, 0, 0, Seq::empty()) == scan_tiles(
                    fr,
                    config,
                    ty as int,
                    tx as int,
                    acc,
                ),
            decreases groups_x - tx,
        {
            if out.len() >= config.max_candidates as usize {
                return Some((out, true));
            }
            proof {
                lemma_tile_inside(tx as nat, config.width as nat);
                lemma_tile_inside(ty as nat, config.height as nat);
            }
            let found = tile_luma_stats(frame, config, tx, ty);
            let ghost s = tile_sums(fr, config, tx as int, ty as int);
            match found {
                Some(t) => {
                    let ghost before = out@;
                    let ghost acc_before = acc;
                    out.push(t);
                    proof {
                        acc = acc.push((tx as int, ty as int, s));
                        assert forall|i: int| 0 <= i < out@.len() implies stats_match(
                            #[trigger] out@[i],
                            acc[i].0,
                            acc[i].1,
                            acc[i].2,
                        ) by {
                            if i < before.len() {
                                assert(out@[i] == before[i]);
                                assert(acc[i] == acc_before[i]);
                                assert(stats_match(
                                    before[i],
                                    acc_before[i].0,
                                    acc_before[i].1,
                                    acc_before[i].2,
                                ));
                            }
                        }
                    }
                },
                None => {},
            }
            tx = tx + 1;
        }
        ty = ty + 1;
    }
    Some((out, false))
}

/// Why the PSMoveAPI tracker could not do what was asked.
#[derive(Clone, Debug, PartialEq, Eq)]
pub struct PsmoveApiTrackerError(pub String);

} // verus!
