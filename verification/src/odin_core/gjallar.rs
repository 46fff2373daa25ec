//! The Gjallar overview: Odin's sight laid out as prioritized dashboard
//! tiles.
use vstd::prelude::*;
use crate::documents::{
    GjallarOverviewRecord, GjallarOverviewTileRecord, OdinInterfaceRecord,
    OdinObservationStreamRecord, OdinServiceRecord, OdinSnapshotRecord, OdinTranslationRouteRecord,
    OdinVerseRecord,
};
use crate::text::{decimal, join3, push_decimal, push_str, str_eq};

verus! {

#[derive(Clone, Debug, PartialEq, Eq)]
pub struct GjallarCompositionInput {
    pub overview_id: String,
    pub composed_at: String,
    pub target_columns: u32,
    pub snapshot: OdinSnapshotRecord,
    pub verses: Vec<OdinVerseRecord>,
    pub services: Vec<OdinServiceRecord>,
    pub interfaces: Vec<OdinInterfaceRecord>,
    pub observation_streams: Vec<OdinObservationStreamRecord>,
    pub translation_routes: Vec<OdinTranslationRouteRecord>,
}

#[derive(Clone, Debug, PartialEq, Eq)]
pub struct GjallarComposition {
    pub overview: GjallarOverviewRecord,
    pub tiles: Vec<GjallarOverviewTileRecord>,
}

pub ghost struct TileView {
    pub tile_id: Seq<char>,
    pub overview_id: Seq<char>,
    pub source_record: Seq<char>,
    pub tile_kind: Seq<char>,
    pub title: Seq<char>,
    pub state: Seq<char>,
    pub detail: Seq<char>,
    pub priority: i32,
    pub row_span: u32,
    pub column_span: u32,
    pub observed_at: Seq<char>,
}

pub open spec fn tile_view(t: GjallarOverviewTileRecord) -> TileView {
    TileView {
        tile_id: t.tile_id@,
        overview_id: t.overview_id@,
        source_record: t.source_record@,
        tile_kind: t.tile_kind@,
        title: t.title@,
        state: t.state@,
        detail: t.detail@,
        priority: t.priority,
        row_span: t.row_span,
        column_span: t.column_span,
        observed_at: t.observed_at@,
    }
}

/// A one-by-one tile of the overview at the given priority.
pub open spec fn make_tile(
    overview_id: Seq<char>,
    priority: i32,
    source_record: Seq<char>,
    tile_kind: Seq<char>,
    title: Seq<char>,
    state: Seq<char>,
    detail: Seq<char>,
    observed_at: Seq<char>,
) -> TileView {
    TileView {
        tile_id: overview_id + ":tile:"@ + decimal(priority as nat),
        overview_id,
        source_record,
        tile_kind,
        title,
        state,
        detail,
        priority,
        row_span: 1,
        column_span: 1,
        observed_at,
    }
}

pub open spec fn snapshot_status_text(s: OdinSnapshotRecord) -> Seq<char> {
    if s.service_count == 0 && s.interface_count == 0 {
        "waiting"@
    } else {
        "active"@
    }
}

pub open spec fn summary_tile(input: GjallarCompositionInput) -> TileView {
    let s = input.snapshot;
    make_tile(
        input.overview_id@,
        0,
        "odin.snapshot:latest"@,
        "summary"@,
        "Odin"@,
        snapshot_status_text(s),
        decimal(s.verse_count as nat) + " verses / "@ + decimal(s.service_count as nat)
            + " services / "@ + decimal(s.interface_count as nat) + " interfaces / "@ + decimal(
            s.observation_stream_count as nat,
        ) + " streams"@,
        s.observed_at@,
    )
}

pub open spec fn interface_tile(input: GjallarCompositionInput, i: int) -> TileView {
    let x = input.interfaces@[i];
    make_tile(
        input.overview_id@,
        (100 + i) as i32,
        "odin.interface:"@ + x.provider_id@,
        "interface"@,
        x.title@,
        x.state@,
        x.source@,
        x.observed_at@,
    )
}

pub open spec fn stream_tile(input: GjallarCompositionInput, i: int) -> TileView {
    let x = input.observation_streams@[i];
    make_tile(
        input.overview_id@,
        (300 + i) as i32,
        "odin.observation_stream:"@ + x.stream_key@,
        "observation-stream"@,
        x.device_id@ + " "@ + x.stream_id@,
        x.state@,
        x.detail@,
        x.observed_at@,
    )
}

pub open spec fn service_tile(input: GjallarCompositionInput, i: int) -> TileView {
    let x = input.services@[i];
    make_tile(
        input.overview_id@,
        (500 + i) as i32,
        "odin.service:"@ + x.service_id@,
        "service"@,
        x.name@,
        x.state@,
        x.detail@,
        x.observed_at@,
    )
}

pub open spec fn verse_tile(input: GjallarCompositionInput, i: int) -> TileView {
    let x = input.verses@[i];
    make_tile(
        input.overview_id@,
        (700 + i) as i32,
        "odin.verse:"@ + x.verse_id@,
        "verse"@,
        x.name@,
        x.status@,
        x.role@,
        x.observed_at@,
    )
}

pub open spec fn route_tile(input: GjallarCompositionInput, i: int) -> TileView {
    let x = input.translation_routes@[i];
    make_tile(
        input.overview_id@,
        (900 + i) as i32,
        "odin.translation_route:"@ + x.route_id@,
        "translation-route"@,
        x.target_schema@,
        x.translation_kind@,
        x.owner@,
        input.snapshot.observed_at@,
    )
}

/// Every tile in the order it is built, tagged with the rank of its group
/// (summary, interfaces, streams, services, verses, routes).
pub open spec fn built_tiles(input: GjallarCompositionInput) -> Seq<(u8, TileView)> {
    seq![(0u8, summary_tile(input))] + Seq::new(
        input.interfaces@.len(),
        |i: int| (1u8, interface_tile(input, i)),
    ) + Seq::new(input.observation_streams@.len(), |i: int| (2u8, stream_tile(input, i)))
        + Seq::new(input.services@.len(), |i: int| (3u8, service_tile(input, i))) + Seq::new(
        input.verses@.len(),
        |i: int| (4u8, verse_tile(input, i)),
    ) + Seq::new(input.translation_routes@.len(), |i: int| (5u8, route_tile(input, i)))
}

/// The order a stable sort by priority leaves: by priority, ties kept in
/// build order (which is group order, since one group never repeats a
/// priority).
pub open spec fn tile_before(a: (u8, TileView), b: (u8, TileView)) -> bool {
    a.1.priority < b.1.priority || (a.1.priority == b.1.priority && a.0 < b.0)
}

/// `k` holds exactly the tiles of `b`, strictly in `tile_before` order.
pub open spec fn stably_sorted(b: Seq<(u8, TileView)>, k: Seq<(u8, TileView)>) -> bool {
    &&& k.len() == b.len()
    &&& forall|i: int, j: int| 0 <= i < j < k.len() ==> tile_before(#[trigger] k[i], #[trigger] k[j])
    &&& forall|i: int| 0 <= i < b.len() ==> k.contains(#[trigger] b[i])
    &&& forall|j: int| 0 <= j < k.len() ==> b.contains(#[trigger] k[j])
}

pub open spec fn ceil_div(n: nat, d: nat) -> nat {
    n / d + if n % d != 0 {
        1nat
    } else {
        0nat
    }
}

/// The overview record of a composition with tiles `t`.
pub open spec fn overview_matches(input: GjallarCompositionInput, t: Seq<TileView>, o: GjallarOverviewRecord) -> bool {
    let cols: u32 = if input.target_columns == 0 {
        1
    } else {
        input.target_columns
    };
    let n = (t.len() as u32) as nat;
    let rows = ceil_div(n, cols as nat);
    &&& o.overview_id@ == input.overview_id@
    &&& o.source_snapshot_id@ == input.snapshot.snapshot_id@
    &&& o.title@ == "Gjallar"@
    &&& o.status@ == (if exists|i: int| 0 <= i < t.len() && (#[trigger] t[i]).state == "failed"@ {
        "degraded"@
    } else {
        "active"@
    })
    &&& o.summary@ == decimal(t.len()) + " drawable tiles from Odin sight"@
    &&& o.tile_count == t.len() as u32
    &&& o.target_columns == cols
    &&& o.target_rows == (if rows == 0 {
        1
    } else {
        rows
    })
    &&& o.source_observed_at@ == input.snapshot.observed_at@
    &&& o.composed_at@ == input.composed_at@
}

pub open spec fn tile_views(t: Seq<GjallarOverviewTileRecord>) -> Seq<TileView> {
    t.map_values(|x: GjallarOverviewTileRecord| tile_view(x))
}

pub open spec fn keyed_views(t: Seq<(u8, GjallarOverviewTileRecord)>) -> Seq<(u8, TileView)> {
    t.map_values(|x: (u8, GjallarOverviewTileRecord)| (x.0, tile_view(x.1)))
}

/// The largest list length whose priorities stay inside `i32`.
pub const MAX_TILES_PER_GROUP: usize = 2147482747;

/// A tile of the overview.
pub fn tile(
    overview_id: &str,
    priority: i32,
    source_record: String,
    tile_kind: &str,
    title: String,
    state: String,
    detail: String,
    observed_at: String,
) -> (r: GjallarOverviewTileRecord)
    requires
        priority >= 0,
    ensures
        tile_view(r) == make_tile(
            overview_id@,
            priority,
            source_record@,
            tile_kind@,
            title@,
            state@,
            detail@,
            observed_at@,
        ),
{
    let mut tile_id = overview_id.to_string();
    push_str(&mut tile_id, ":tile:");
    push_decimal(&mut tile_id, priority as u64);
    GjallarOverviewTileRecord {
        tile_id,
        overview_id: overview_id.to_string(),
        source_record,
        tile_kind: tile_kind.to_string(),
        title,
        state,
        detail,
        priority,
        row_span: 1,
        column_span: 1,
        observed_at,
    }
}

/// `waiting` until Odin sees a service or interface, then `active`.
pub fn snapshot_status(snapshot: &OdinSnapshotRecord) -> (r: String)
    ensures
        r@ == snapshot_status_text(*snapshot),
{
    if snapshot.service_count == 0 && snapshot.interface_count == 0 {
        "waiting".to_string()
    } else {
        "active".to_string()
    }
}

proof fn lemma_built_distinct(input: GjallarCompositionInput, i: int, j: int)
    requires
        input.interfaces@.len() <= MAX_TILES_PER_GROUP,
        input.observation_streams@.len() <= MAX_TILES_PER_GROUP,
        input.services@.len() <= MAX_TILES_PER_GROUP,
        input.verses@.len() <= MAX_TILES_PER_GROUP,
        input.translation_routes@.len() <= MAX_TILES_PER_GROUP,
        0 <= i < j < built_tiles(input).len(),
    ensures
        built_tiles(input)[i].0 != built_tiles(input)[j].0 || built_tiles(input)[i].1.priority
            != built_tiles(input)[j].1.priority,
{
    let b = built_tiles(input);
    let n1 = input.interfaces@.len() as int;
    let n2 = input.observation_streams@.len() as int;
    let n3 = input.services@.len() as int;
    let n4 = input.verses@.len() as int;
    let n5 = input.translation_routes@.len() as int;
    assert(b.len() == 1 + n1 + n2 + n3 + n4 + n5);
    if b[i].0 == b[j].0 {
        if i == 0 {
        } else if i <= n1 {
            assert(b[i] == (1u8, interface_tile(input, i - 1)));
            assert(b[j] == (1u8, interface_tile(input, j - 1)));
        } else if i <= n1 + n2 {
            assert(b[i] == (2u8, stream_tile(input, i - 1 - n1)));
            assert(b[j] == (2u8, stream_tile(input, j - 1 - n1)));
        } else if i <= n1 + n2 + n3 {
            assert(b[i] == (3u8, service_tile(input, i - 1 - n1 - n2)));
            assert(b[j] == (3u8, service_tile(input, j - 1 - n1 - n2)));
        } else if i <= n1 + n2 + n3 + n4 {
            assert(b[i] == (4u8, verse_tile(input, i - 1 - n1 - n2 - n3)));
            assert(b[j] == (4u8, verse_tile(input, j - 1 - n1 - n2 - n3)));
        } else {
            assert(b[i] == (5u8, route_tile(input, i - 1 - n1 - n2 - n3 - n4)));
            assert(b[j] == (5u8, route_tile(input, j - 1 - n1 - n2 - n3 - n4)));
        }
    }
}

/// Sorts tiles into `tile_before` order by insertion; no two tiles share
/// both group and priority.
fn sort_tiles(built: Vec<(u8, GjallarOverviewTileRecord)>) -> (r: Vec<(u8, GjallarOverviewTileRecord)>)
    requires
        forall|i: int, j: int|
            0 <= i < j < built@.len() ==> (#[trigger] keyed_views(built@)[i]).0 != (
            #[trigger] keyed_views(built@)[j]).0 || keyed_views(built@)[i].1.priority
                != keyed_views(built@)[j].1.priority,
    ensures
        stably_sorted(keyed_views(built@), keyed_views(r@)),
{
    let ghost orig = keyed_views(built@);
    let n = built.len();
    let mut rest = built;
    let mut sorted: Vec<(u8, GjallarOverviewTileRecord)> = Vec::new();
    let mut i: usize = 0;
    while i < n
        invariant
            n == orig.len(),
            i <= n,
            keyed_views(rest@) == orig.subrange(i as int, n as int),
            rest@.len() == n - i,
            forall|a: int, c: int|
                0 <= a < c < orig.len() ==> (#[trigger] orig[a]).0 != (#[trigger] orig[c]).0
                    || orig[a].1.priority != orig[c].1.priority,
            keyed_views(sorted@).len() == i,
            forall|a: int, c: int|
                0 <= a < c < keyed_views(sorted@).len() ==> tile_before(
                    #[trigger] keyed_views(sorted@)[a],
                    #[trigger] keyed_views(sorted@)[c],
                ),
            forall|q: int| 0 <= q < i ==> keyed_views(sorted@).contains(#[trigger] orig[q]),
            forall|q: int| 0 <= q < keyed_views(sorted@).len() ==> orig.subrange(0, i as int).contains(
                #[trigger] keyed_views(sorted@)[q],
            ),
        decreases n - i,
    {
        let ghost sv = keyed_views(sorted@);
        let ghost rest_before = rest@;
        assert(keyed_views(rest_before)[0] == orig[i as int]);
        let item = rest.remove(0);
        let ghost x = (item.0, tile_view(item.1));
        assert(x == orig[i as int]);
        assert(rest@ =~= rest_before.subrange(1, rest_before.len() as int));
        assert(keyed_views(rest@) =~= keyed_views(rest_before).subrange(1, rest_before.len() as int));
        assert(keyed_views(rest@) =~= orig.subrange(i + 1, n as int));
        let mut p: usize = 0;
        while p < sorted.len() && (sorted[p].1.priority < item.1.priority || (sorted[p].1.priority
            == item.1.priority && sorted[p].0 < item.0))
            invariant
                sv == keyed_views(sorted@),
                p <= sv.len(),
                x == (item.0, tile_view(item.1)),
                forall|q: int| 0 <= q < p ==> tile_before(#[trigger] sv[q], x),
            decreases sv.len() - p,
        {
            p = p + 1;
        }
        proof {
            if p < sv.len() {
                let y = sv[p as int];
                assert(!tile_before(y, x));
                let yq = choose|q: int| 0 <= q < i && orig.subrange(0, i as int)[q] == y;
                assert(orig[yq] == y);
                assert(y != x || yq == i as int);
                assert(tile_before(x, y));
            }
        }
        sorted.insert(p, item);
        proof {
            let nv = keyed_views(sorted@);
            assert(nv =~= sv.insert(p as int, x));
            assert forall|a: int, c: int| 0 <= a < c < nv.len() implies tile_before(
                #[trigger] nv[a],
                #[trigger] nv[c],
            ) by {
                if a < p && c < p {
                    assert(nv[a] == sv[a] && nv[c] == sv[c]);
                } else if a < p && c == p {
                    assert(nv[a] == sv[a]);
                } else if a < p {
                    assert(nv[a] == sv[a] && nv[c] == sv[c - 1]);
                    assert(tile_before(sv[a], x));
                } else if a == p {
                    assert(nv[c] == sv[c - 1]);
                    assert(tile_before(x, sv[p as int]));
                    if c - 1 > p {
                        assert(tile_before(sv[p as int], sv[c - 1]));
                    }
                } else {
                    assert(nv[a] == sv[a - 1] && nv[c] == sv[c - 1]);
                }
            }
            assert forall|q: int| 0 <= q < i + 1 implies nv.contains(#[trigger] orig[q]) by {
                if q == i {
                    assert(nv[p as int] == x);
                } else {
                    let w = choose|w: int| 0 <= w < sv.len() && sv[w] == orig[q];
                    if w < p {
                        assert(nv[w] == sv[w]);
                    } else {
                        assert(nv[w + 1] == sv[w]);
                    }
                }
            }
            assert forall|q: int| 0 <= q < nv.len() implies orig.subrange(0, i + 1).contains(
                #[trigger] nv[q],
            ) by {
                if q == p {
                    assert(orig.subrange(0, i + 1)[i as int] == x);
                } else {
                    let y = if q < p {
                        sv[q]
                    } else {
                        sv[q - 1]
                    };
                    assert(nv[q] == y);
                    let w = choose|w: int| 0 <= w < i && orig.subrange(0, i as int)[w] == y;
                    assert(orig.subrange(0, i + 1)[w] == y);
                }
            }
        }
        i = i + 1;
    }
    proof {
        let kv = keyed_views(sorted@);
        assert(orig.subrange(0, n as int) =~= orig);
        assert forall|q: int| 0 <= q < kv.len() implies orig.contains(#[trigger] kv[q]) by {
            let w = choose|w: int| 0 <= w < n && orig.subrange(0, n as int)[w] == kv[q];
            assert(orig[w] == kv[q]);
        }
    }
    sorted
}

/// Lays Odin's sight out as dashboard tiles: the summary first, then
/// interfaces, streams, services, verses and translation routes, stably
/// ordered by priority, with the grid sized for the target column count.
pub fn compose_gjallar_overview(input: GjallarCompositionInput) -> (r: GjallarComposition)
    requires
        input.interfaces@.len() <= MAX_TILES_PER_GROUP,
        input.observation_streams@.len() <= MAX_TILES_PER_GROUP,
        input.services@.len() <= MAX_TILES_PER_GROUP,
        input.verses@.len() <= MAX_TILES_PER_GROUP,
        input.translation_routes@.len() <= MAX_TILES_PER_GROUP,
    ensures
        exists|k: Seq<(u8, TileView)>|
            stably_sorted(built_tiles(input), k) && tile_views(r.tiles@) == k.map_values(
                |x: (u8, TileView)| x.1,
            ),
        overview_matches(input, tile_views(r.tiles@), r.overview),
{
    let ghost b = built_tiles(input);
    let mut built: Vec<(u8, GjallarOverviewTileRecord)> = Vec::new();
    let overview_id = input.overview_id.as_str();
    let s = &input.snapshot;
    let mut detail = String::new();
    push_decimal(&mut detail, s.verse_count as u64);
    push_str(&mut detail, " verses / ");
    push_decimal(&mut detail, s.service_count as u64);
    push_str(&mut detail, " services / ");
    push_decimal(&mut detail, s.interface_count as u64);
    push_str(&mut detail, " interfaces / ");
    push_decimal(&mut detail, s.observation_stream_count as u64);
    push_str(&mut detail, " streams");
    let summary = tile(
        overview_id,
        0,
        "odin.snapshot:latest".to_string(),
        "summary",
        "Odin".to_string(),
        snapshot_status(s),
        detail,
        s.observed_at.as_str().to_string(),
    );
    built.push((0u8, summary));
    assert(keyed_views(built@) =~= b.subrange(0, 1));
    let mut i: usize = 0;
    while i < input.interfaces.len()
        invariant
            b == built_tiles(input),
            overview_id@ == input.overview_id@,
            input.interfaces@.len() <= MAX_TILES_PER_GROUP,
            i <= input.interfaces@.len(),
            keyed_views(built@) == b.subrange(0, 1 + i),
        decreases input.interfaces@.len() - i,
    {
        let x = &input.interfaces[i];
        let t = tile(
            overview_id,
            100 + i as i32,
            join3("odin.interface:", x.provider_id.as_str(), ""),
            "interface",
            x.title.as_str().to_string(),
            x.state.as_str().to_string(),
            x.source.as_str().to_string(),
            x.observed_at.as_str().to_string(),
        );
        let ghost prev = built@;
        built.push((1u8, t));
        proof {
            reveal_strlit("");
            assert(tile_view(t) == interface_tile(input, i as int));
            assert(keyed_views(built@) =~= keyed_views(prev).push(b[1 + i]));
            assert(b.subrange(0, 1 + i + 1) =~= b.subrange(0, 1 + i).push(b[1 + i]));
        }
        i = i + 1;
    }
    let ghost n1 = input.interfaces@.len() as int;
    let mut i: usize = 0;
    while i < input.observation_streams.len()
        invariant
            b == built_tiles(input),
            n1 == input.interfaces@.len(),
            overview_id@ == input.overview_id@,
            input.observation_streams@.len() <= MAX_TILES_PER_GROUP,
            i <= input.observation_streams@.len(),
            keyed_views(built@) == b.subrange(0, 1 + n1 + i),
        decreases input.observation_streams@.len() - i,
    {
        let x = &input.observation_streams[i];
        let t = tile(
            overview_id,
            300 + i as i32,
            join3("odin.observation_stream:", x.stream_key.as_str(), ""),
            "observation-stream",
            join3(x.device_id.as_str(), " ", x.stream_id.as_str()),
            x.state.as_str().to_string(),
            x.detail.as_str().to_string(),
            x.observed_at.as_str().to_string(),
        );
        let ghost prev = built@;
        built.push((2u8, t));
        proof {
            reveal_strlit("");
            assert(tile_view(t) == stream_tile(input, i as int));
            assert(keyed_views(built@) =~= keyed_views(prev).push(b[1 + n1 + i]));
            assert(b.subrange(0, 1 + n1 + i + 1) =~= b.subrange(0, 1 + n1 + i).push(b[1 + n1 + i]));
        }
        i = i + 1;
    }
    let ghost n2 = input.observation_streams@.len() as int;
    let mut i: usize = 0;
    while i < input.services.len()
        invariant
            b == built_tiles(input),
            n1 == input.interfaces@.len(),
            n2 == input.observation_streams@.len(),
            overview_id@ == input.overview_id@,
            input.services@.len() <= MAX_TILES_PER_GROUP,
            i <= input.services@.len(),
            keyed_views(built@) == b.subrange(0, 1 + n1 + n2 + i),
        decreases input.services@.len() - i,
    {
        let x = &input.services[i];
        let t = tile(
            overview_id,
            500 + i as i32,
            join3("odin.service:", x.service_id.as_str(), ""),
            "service",
            x.name.as_str().to_string(),
            x.state.as_str().to_string(),
            x.detail.as_str().to_string(),
            x.observed_at.as_str().to_string(),
        );
        let ghost prev = built@;
        built.push((3u8, t));
        proof {
            reveal_strlit("");
            assert(tile_view(t) == service_tile(input, i as int));
            assert(keyed_views(built@) =~= keyed_views(prev).push(b[1 + n1 + n2 + i]));
            assert(b.subrange(0, 1 + n1 + n2 + i + 1) =~= b.subrange(0, 1 + n1 + n2 + i).push(
                b[1 + n1 + n2 + i],
            ));
        }
        i = i + 1;
    }
    let ghost n3 = input.services@.len() as int;
    let mut i: usize = 0;
    while i < input.verses.len()
        invariant
            b == built_tiles(input),
            n1 == input.interfaces@.len(),
            n2 == input.observation_streams@.len(),
            n3 == input.services@.len(),
            overview_id@ == input.overview_id@,
            input.verses@.len() <= MAX_TILES_PER_GROUP,
            i <= input.verses@.len(),
            keyed_views(built@) == b.subrange(0, 1 + n1 + n2 + n3 + i),
        decreases input.verses@.len() - i,
    {
        let x = &input.verses[i];
        let t = tile(
            overview_id,
            700 + i as i32,
            join3("odin.verse:", x.verse_id.as_str(), ""),
            "verse",
            x.name.as_str().to_string(),
            x.status.as_str().to_string(),
            x.role.as_str().to_string(),
            x.observed_at.as_str().to_string(),
        );
        let ghost prev = built@;
        built.push((4u8, t));
        proof {
            reveal_strlit("");
            assert(tile_view(t) == verse_tile(input, i as int));
            assert(keyed_views(built@) =~= keyed_views(prev).push(b[1 + n1 + n2 + n3 + i]));
            assert(b.subrange(0, 1 + n1 + n2 + n3 + i + 1) =~= b.subrange(0, 1 + n1 + n2 + n3 + i).push(
                b[1 + n1 + n2 + n3 + i],
            ));
        }
        i = i + 1;
    }
    let ghost n4 = input.verses@.len() as int;
    let mut i: usize = 0;
    while i < input.translation_routes.len()
        invariant
            b == built_tiles(input),
            n1 == input.interfaces@.len(),
            n2 == input.observation_streams@.len(),
            n3 == input.services@.len(),
            n4 == input.verses@.len(),
            overview_id@ == input.overview_id@,
            input.translation_routes@.len() <= MAX_TILES_PER_GROUP,
            i <= input.translation_routes@.len(),
            keyed_views(built@) == b.subrange(0, 1 + n1 + n2 + n3 + n4 + i),
        decreases input.translation_routes@.len() - i,
    {
        let x = &input.translation_routes[i];
        let t = tile(
            overview_id,
            900 + i as i32,
            join3("odin.translation_route:", x.route_id.as_str(), ""),
            "translation-route",
            x.target_schema.as_str().to_string(),
            x.translation_kind.as_str().to_string(),
            x.owner.as_str().to_string(),
            input.snapshot.observed_at.as_str().to_string(),
        );
        let ghost prev = built@;
        built.push((5u8, t));
        proof {
            reveal_strlit("");
            assert(tile_view(t) == route_tile(input, i as int));
            assert(keyed_views(built@) =~= keyed_views(prev).push(b[1 + n1 + n2 + n3 + n4 + i]));
            assert(b.subrange(0, 1 + n1 + n2 + n3 + n4 + i + 1) =~= b.subrange(
                0,
                1 + n1 + n2 + n3 + n4 + i,
            ).push(b[1 + n1 + n2 + n3 + n4 + i]));
        }
        i = i + 1;
    }
    assert(keyed_views(built@) =~= b);
    proof {
        assert forall|i: int, j: int| 0 <= i < j < b.len() implies (#[trigger] b[i]).0 != (#[trigger] b[j]).0
            || b[i].1.priority != b[j].1.priority by {
            lemma_built_distinct(input, i, j);
        }
    }
    let sorted = sort_tiles(built);
    let ghost k = keyed_views(sorted@);
    let mut tiles: Vec<GjallarOverviewTileRecord> = Vec::new();
    let mut sorted = sorted;
    let mut failed = false;
    let n = sorted.len();
    let mut j: usize = 0;
    while j < n
        invariant
            n == k.len(),
            keyed_views(sorted@) == k.subrange(j as int, n as int),
            sorted@.len() == n - j,
            j <= n,
            tile_views(tiles@) == k.subrange(0, j as int).map_values(|x: (u8, TileView)| x.1),
            failed == exists|q: int| 0 <= q < j && (#[trigger] tile_views(tiles@)[q]).state == "failed"@,
        decreases n - j,
    {
        let ghost before = tiles@;
        let ghost sorted_before = sorted@;
        assert(keyed_views(sorted@)[0] == k[j as int]);
        let (_, t) = sorted.remove(0);
        assert(tile_view(t) == k[j as int].1);
        let is_failed = str_eq(t.state.as_str(), "failed");
        tiles.push(t);
        proof {
            assert(tile_views(tiles@) =~= tile_views(before).push(tile_view(t)));
            assert(k.subrange(0, j + 1).map_values(|x: (u8, TileView)| x.1) =~= k.subrange(
                0,
                j as int,
            ).map_values(|x: (u8, TileView)| x.1).push(k[j as int].1));
            assert(sorted@ =~= sorted_before.subrange(1, sorted_before.len() as int));
            assert(keyed_views(sorted@) =~= keyed_views(sorted_before).subrange(1, sorted_before.len() as int));
            assert(keyed_views(sorted@) =~= k.subrange(j + 1, n as int));
            assert(tile_views(tiles@)[j as int] == tile_view(t));
            assert forall|q: int| 0 <= q < j implies tile_views(tiles@)[q] == tile_views(before)[q] by {}
        }
        failed = failed || is_failed;
        j = j + 1;
    }
    proof {
        assert(k.subrange(0, j as int) =~= k);
    }
    let columns: u32 = if input.target_columns == 0 {
        1
    } else {
        input.target_columns
    };
    let count = tiles.len() as u32;
    let q = count / columns;
    let rows_raw = if count % columns != 0 {
        assert(q < 4294967295) by (nonlinear_arith)
            requires
                q == count / columns,
                count % columns != 0,
                columns >= 1,
                count <= 4294967295,
        ;
        q + 1
    } else {
        q
    };
    let rows = if rows_raw == 0 {
        1
    } else {
        rows_raw
    };
    let mut summary_text = String::new();
    push_decimal(&mut summary_text, tiles.len() as u64);
    push_str(&mut summary_text, " drawable tiles from Odin sight");
    let overview = GjallarOverviewRecord {
        overview_id: input.overview_id,
        source_snapshot_id: input.snapshot.snapshot_id,
        title: "Gjallar".to_string(),
        status: if failed {
            "degraded".to_string()
        } else {
            "active".to_string()
        },
        summary: summary_text,
        tile_count: count,
        target_columns: columns,
        target_rows: rows,
        source_observed_at: input.snapshot.observed_at,
        composed_at: input.composed_at,
    };
    GjallarComposition { overview, tiles }
}


/// Any tile built from Odin's sight whose state is `failed` (a service, an
/// interface, a stream, a verse...) makes the overview `degraded`.
pub proof fn law_failed_tile_degrades_overview(
    input: GjallarCompositionInput,
    k: Seq<(u8, TileView)>,
    o: GjallarOverviewRecord,
    j: int,
)
    requires
        stably_sorted(built_tiles(input), k),
        overview_matches(input, k.map_values(|x: (u8, TileView)| x.1), o),
        0 <= j < built_tiles(input).len(),
        built_tiles(input)[j].1.state == "failed"@,
    ensures
        o.status@ == "degraded"@,
{
    let b = built_tiles(input);
    let t = k.map_values(|x: (u8, TileView)| x.1);
    assert(k.contains(b[j]));
    let m = choose|m: int| 0 <= m < k.len() && k[m] == b[j];
    assert(t[m].state == "failed"@);
}

/// A failed service shows: the overview of a composition with a service in
/// state `failed` is `degraded`; and an overview none of whose tiles failed
/// is `active`.
pub proof fn law_failed_service_degrades_overview(
    input: GjallarCompositionInput,
    k: Seq<(u8, TileView)>,
    o: GjallarOverviewRecord,
    i: int,
)
    requires
        stably_sorted(built_tiles(input), k),
        overview_matches(input, k.map_values(|x: (u8, TileView)| x.1), o),
        0 <= i < input.services@.len(),
        input.services@[i].state@ == "failed"@,
    ensures
        o.status@ == "degraded"@,
{
    let b = built_tiles(input);
    let j = 1 + input.interfaces@.len() + input.observation_streams@.len() + i;
    assert(b[j] == (3u8, service_tile(input, i)));
    law_failed_tile_degrades_overview(input, k, o, j);
}

/// An overview whose tiles all have another state than `failed` is
/// `active`.
pub proof fn law_overview_without_failures_is_active(
    input: GjallarCompositionInput,
    t: Seq<TileView>,
    o: GjallarOverviewRecord,
)
    requires
        overview_matches(input, t, o),
        forall|i: int| 0 <= i < t.len() ==> (#[trigger] t[i]).state != "failed"@,
    ensures
        o.status@ == "active"@,
{
}

} // verus!
