//! The library's global laws: how loading and unloading shape the resident
//! set, that one residency update settles the world (a second update from
//! the same position changes nothing), that the resident set after an
//! update is exactly the view window, and that a load followed by an unload
//! restores the manager exactly.

use vstd::prelude::*;
use crate::chunks::{
    chunk_at_model, chunk_index_from, chunk_index_model, cm_wf, lemma_chunk_index_bounds,
    lemma_load_chunk_model_wf, lemma_resident_index, lemma_unresident_no_index, load_chunk_model,
    load_ids_model, loadable, nearby_cols, nearby_model, nearby_rows, nearby_step, resident,
    unload_chunk_model, unload_ids_model, update_model, CmV,
};
use crate::monster::MonsterV;
use crate::geom::V2;

verus! {

/// What one unload does to residency and to the map store: the unloaded id
/// leaves the resident set, everything else stays, and no map slot but the
/// unloaded chunk's changes.
pub proof fn lemma_unload_effect(s: CmV, id: usize)
    requires
        cm_wf(s),
    ensures
        ({
            let s1 = unload_chunk_model(s, id);
            &&& s1.world == s.world
            &&& s1.cps == s.cps
            &&& s1.current == s.current
            &&& s1.maps.len() == s.maps.len()
            &&& cm_wf(s1)
            &&& forall|x: usize| resident(s1, x) <==> (resident(s, x) && x != id)
            &&& forall|xi: int|
                0 <= xi < s.maps.len() && xi != id as int ==> s1.maps[xi] == s.maps[xi]
        }),
{
    crate::chunks::lemma_unload_chunk_model_wf(s, id);
    let s1 = unload_chunk_model(s, id);
    match chunk_index_model(s, id) {
        None => {
            assert forall|x: usize| resident(s1, x) <==> (resident(s, x) && x != id) by {
                if resident(s, x) && x == id {
                    lemma_resident_index(s, id);
                }
            }
        },
        Some(k) => {
            lemma_chunk_index_bounds(s.chunks, id, 0);
            assert(s.loaded[k] == id);
            assert forall|x: usize| resident(s1, x) implies (resident(s, x) && x != id) by {
                let i = choose|i: int| 0 <= i < s1.loaded.len() && s1.loaded[i] == x;
                let i0 = if i < k {
                    i
                } else {
                    i + 1
                };
                assert(s.loaded[i0] == x);
                assert(i0 != k);
            }
            assert forall|x: usize| resident(s, x) && x != id implies resident(s1, x) by {
                let j = choose|j: int| 0 <= j < s.loaded.len() && s.loaded[j] == x;
                assert(j != k);
                let j1 = if j < k {
                    j
                } else {
                    j - 1
                };
                assert(s1.loaded[j1] == x);
            }
        },
    }
}

/// What one load does to residency and to the map store: the id joins the
/// resident set exactly when it can be loaded, everything else stays, and
/// no map slot but the loaded chunk's changes.
pub proof fn lemma_load_effect(s: CmV, id: usize, ts: Seq<MonsterV>)
    requires
        cm_wf(s),
        crate::chunks::templates_wf(ts),
    ensures
        ({
            let s1 = load_chunk_model(s, id, ts);
            &&& s1.world == s.world
            &&& s1.cps == s.cps
            &&& s1.current == s.current
            &&& s1.maps.len() == s.maps.len()
            &&& cm_wf(s1)
            &&& forall|x: usize| resident(s1, x) <==> (resident(s, x) || (x == id && loadable(s, id)))
            &&& forall|xi: int|
                0 <= xi < s.maps.len() && xi != id as int ==> s1.maps[xi] == s.maps[xi]
            &&& !resident(s1, id) ==> s1.maps.len() == s.maps.len() && (id < s.maps.len()
                ==> s1.maps[id as int] == s.maps[id as int])
        }),
{
    lemma_load_chunk_model_wf(s, id, ts);
    let s1 = load_chunk_model(s, id, ts);
    if !resident(s, id) && loadable(s, id) {
        assert forall|x: usize| resident(s1, x) implies (resident(s, x) || (x == id && loadable(
            s,
            id,
        ))) by {
            let i = choose|i: int| 0 <= i < s1.loaded.len() && s1.loaded[i] == x;
            if i < s.loaded.len() {
                assert(s.loaded[i] == x);
            } else {
                assert(x == id);
            }
        }
        assert forall|x: usize| resident(s, x) implies resident(s1, x) by {
            let i = choose|i: int| 0 <= i < s.loaded.len() && s.loaded[i] == x;
            assert(s1.loaded[i] == x);
        }
        assert(s1.loaded[s.loaded.len() as int] == id);
        assert(resident(s1, id));
    }
}

/// Folding `lemma_unload_effect` over a list of ids.
pub proof fn lemma_unload_ids_effect(s: CmV, ids: Seq<usize>)
    requires
        cm_wf(s),
    ensures
        ({
            let s1 = unload_ids_model(s, ids);
            &&& s1.world == s.world
            &&& s1.cps == s.cps
            &&& s1.current == s.current
            &&& s1.maps.len() == s.maps.len()
            &&& cm_wf(s1)
            &&& forall|x: usize| resident(s1, x) <==> (resident(s, x) && !ids.contains(x))
            &&& forall|x: usize|
                x < s.maps.len() && !ids.contains(x) ==> s1.maps[x as int] == s.maps[x as int]
        }),
    decreases ids.len(),
{
    let s1 = unload_ids_model(s, ids);
    if ids.len() == 0 {
        assert(forall|x: usize| !ids.contains(x));
    } else {
        let mid = unload_chunk_model(s, ids[0]);
        lemma_unload_effect(s, ids[0]);
        lemma_unload_ids_effect(mid, ids.drop_first());
        let rest = ids.drop_first();
        assert forall|x: usize| #[trigger] ids.contains(x) implies (x == ids[0] || rest.contains(
            x,
        )) by {
            let i = choose|i: int| 0 <= i < ids.len() && ids[i] == x;
            if i > 0 {
                assert(rest[i - 1] == x);
            }
        }
        assert forall|x: usize| #[trigger] rest.contains(x) implies ids.contains(x) by {
            let i = choose|i: int| 0 <= i < rest.len() && rest[i] == x;
            assert(ids[i + 1] == x);
        }
        assert(ids.contains(ids[0]));
        assert forall|x: usize| resident(s1, x) <==> (resident(s, x) && !ids.contains(x)) by {
            assert(resident(s1, x) <==> (resident(mid, x) && !rest.contains(x)));
            assert(resident(mid, x) <==> (resident(s, x) && x != ids[0]));
        }
        assert forall|x: usize|
            x < s.maps.len() && !ids.contains(x) implies s1.maps[x as int] == s.maps[x as int] by {
            assert(!rest.contains(x) && x != ids[0]);
            assert(mid.maps[x as int] == s.maps[x as int]);
        }
    }
}

/// Folding `lemma_load_effect` over a list of ids.
pub proof fn lemma_load_ids_effect(s: CmV, ids: Seq<usize>, ts: Seq<MonsterV>)
    requires
        cm_wf(s),
        crate::chunks::templates_wf(ts),
    ensures
        ({
            let s1 = load_ids_model(s, ids, ts);
            &&& s1.world == s.world
            &&& s1.cps == s.cps
            &&& s1.current == s.current
            &&& s1.maps.len() == s.maps.len()
            &&& cm_wf(s1)
            &&& forall|x: usize|
                resident(s1, x) <==> (resident(s, x) || (ids.contains(x) && loadable(s, x)))
            &&& forall|x: usize|
                x < s.maps.len() && !resident(s1, x) ==> s1.maps[x as int] == s.maps[x as int]
        }),
    decreases ids.len(),
{
    let s1 = load_ids_model(s, ids, ts);
    if ids.len() == 0 {
        assert(forall|x: usize| !ids.contains(x));
    } else {
        let mid = load_chunk_model(s, ids[0], ts);
        lemma_load_effect(s, ids[0], ts);
        lemma_load_ids_effect(mid, ids.drop_first(), ts);
        let rest = ids.drop_first();
        assert forall|x: usize| #[trigger] ids.contains(x) implies (x == ids[0] || rest.contains(
            x,
        )) by {
            let i = choose|i: int| 0 <= i < ids.len() && ids[i] == x;
            if i > 0 {
                assert(rest[i - 1] == x);
            }
        }
        assert forall|x: usize| #[trigger] rest.contains(x) implies ids.contains(x) by {
            let i = choose|i: int| 0 <= i < rest.len() && rest[i] == x;
            assert(ids[i + 1] == x);
        }
        assert(ids.contains(ids[0]));
        assert forall|x: usize| resident(s1, x) <==> (resident(s, x) || (ids.contains(x)
            && loadable(s, x))) by {
            assert(resident(s1, x) <==> (resident(mid, x) || (rest.contains(x) && loadable(
                mid,
                x,
            ))));
            assert(resident(mid, x) <==> (resident(s, x) || (x == ids[0] && loadable(s, ids[0]))));
            if !resident(mid, x) {
                if x != ids[0] {
                    assert(x < s.maps.len() ==> mid.maps[x as int] == s.maps[x as int]);
                    assert(loadable(mid, x) == loadable(s, x));
                } else {
                    assert(!loadable(s, ids[0]) || resident(s, ids[0]));
                    if resident(s, ids[0]) {
                        assert(resident(mid, x));
                    } else {
                        assert(mid.maps[x as int] == s.maps[x as int] || !(x
                            < mid.world.chunks.len()));
                        assert(loadable(mid, x) == loadable(s, x));
                    }
                }
            }
        }
        assert forall|x: usize|
            x < s.maps.len() && !resident(s1, x) implies s1.maps[x as int] == s.maps[x as int] by {
            assert(!resident(mid, x));
            assert(!(x == ids[0] && loadable(s, ids[0])));
            assert(mid.maps[x as int] == s.maps[x as int]);
        }
    }
}

/// The window scan reads only the static world, column step.
proof fn lemma_nearby_cols_world(
    s1: CmV,
    s2: CmV,
    cx: int,
    cy: int,
    v: int,
    dy: int,
    dx: int,
    acc: Seq<usize>,
)
    requires
        s1.world == s2.world,
    ensures
        nearby_cols(s1, cx, cy, v, dy, dx, acc) == nearby_cols(s2, cx, cy, v, dy, dx, acc),
    decreases v + 1 - dx,
{
    if dx <= v {
        assert(nearby_step(s1, cx, cy, dy, dx, acc) == nearby_step(s2, cx, cy, dy, dx, acc));
        lemma_nearby_cols_world(s1, s2, cx, cy, v, dy, dx + 1, nearby_step(s1, cx, cy, dy, dx, acc));
    }
}

/// The window scan reads only the static world, row step.
proof fn lemma_nearby_rows_world(
    s1: CmV,
    s2: CmV,
    cx: int,
    cy: int,
    v: int,
    dy: int,
    acc: Seq<usize>,
)
    requires
        s1.world == s2.world,
    ensures
        nearby_rows(s1, cx, cy, v, dy, acc) == nearby_rows(s2, cx, cy, v, dy, acc),
    decreases v + 1 - dy,
{
    if dy <= v {
        lemma_nearby_cols_world(s1, s2, cx, cy, v, dy, -v, acc);
        lemma_nearby_rows_world(s1, s2, cx, cy, v, dy + 1, nearby_cols(s1, cx, cy, v, dy, -v, acc));
    }
}

/// The view window around a chunk depends only on the static world.
pub proof fn lemma_nearby_world(s1: CmV, s2: CmV, center: usize)
    requires
        s1.world == s2.world,
    ensures
        nearby_model(s1, center) == nearby_model(s2, center),
{
    if center < s1.world.chunks.len() {
        let cfg = s1.world.chunks[center as int];
        lemma_nearby_rows_world(
            s1,
            s2,
            cfg.world_x,
            cfg.world_y,
            s1.world.info.view_distance,
            -s1.world.info.view_distance,
            seq![center],
        );
    }
}

/// Loading ids that are all resident or unloadable changes nothing.
proof fn lemma_load_ids_noop(s: CmV, ids: Seq<usize>, ts: Seq<MonsterV>)
    requires
        forall|i: int|
            0 <= i < ids.len() ==> resident(s, #[trigger] ids[i]) || !loadable(s, ids[i]),
    ensures
        load_ids_model(s, ids, ts) == s,
    decreases ids.len(),
{
    if ids.len() > 0 {
        assert(load_chunk_model(s, ids[0], ts) == s);
        assert forall|i: int|
            0 <= i < ids.drop_first().len() implies resident(
            s,
            #[trigger] ids.drop_first()[i],
        ) || !loadable(s, ids.drop_first()[i]) by {
            assert(ids.drop_first()[i] == ids[i + 1]);
        }
        lemma_load_ids_noop(s, ids.drop_first(), ts);
    }
}

/// A filtered list whose predicate holds of no element is empty.
proof fn lemma_filter_none(s: Seq<usize>, pred: spec_fn(usize) -> bool)
    requires
        forall|i: int| 0 <= i < s.len() ==> !pred(#[trigger] s[i]),
    ensures
        s.filter(pred).len() == 0,
    decreases s.len(),
{
    reveal(Seq::filter);
    if s.len() > 0 {
        assert forall|i: int| 0 <= i < s.drop_last().len() implies !pred(
            #[trigger] s.drop_last()[i],
        ) by {
            assert(s.drop_last()[i] == s[i]);
        }
        lemma_filter_none(s.drop_last(), pred);
    }
}

/// Updating the resident set is idempotent: a second update from the same
/// player position, with the same templates, changes nothing at all.
pub proof fn lemma_update_idempotent(s: CmV, pos: V2, ts: Seq<MonsterV>)
    requires
        cm_wf(s),
        crate::chunks::templates_wf(ts),
    ensures
        update_model(update_model(s, pos, ts), pos, ts) == update_model(s, pos, ts),
{
    match chunk_at_model(s, pos) {
        None => {},
        Some(c) => {
            let s1 = CmV { current: Some(c), ..s };
            let nearby = nearby_model(s1, c);
            let to_unload = s1.loaded.filter(|id: usize| !nearby.contains(id));
            let s2 = unload_ids_model(s1, to_unload);
            let s3 = load_ids_model(s2, nearby, ts);
            assert(update_model(s, pos, ts) == s3);
            assert(cm_wf(s1));
            broadcast use vstd::seq_lib::group_filter_ensures;

            lemma_unload_ids_effect(s1, to_unload);
            lemma_load_ids_effect(s2, nearby, ts);
            // The second update sees the same current chunk and window.
            assert(s3.world == s.world && s3.cps == s.cps);
            assert(chunk_at_model(s3, pos) == Some(c));
            let s1b = CmV { current: Some(c), ..s3 };
            assert(s3.current == Some(c));
            assert(s1b =~= s3);
            lemma_nearby_world(s3, s1, c);
            assert(nearby_model(s3, c) == nearby);
            // Every resident chunk lies in the window, so nothing unloads.
            assert forall|x: usize| #[trigger] resident(s3, x) implies nearby.contains(x) by {
                assert(resident(s2, x) || (nearby.contains(x) && loadable(s2, x)));
                if resident(s2, x) {
                    assert(resident(s1, x) && !to_unload.contains(x));
                    if !nearby.contains(x) {
                        let i = choose|i: int| 0 <= i < s1.loaded.len() && s1.loaded[i] == x;
                        assert(s1.loaded.filter(|id: usize| !nearby.contains(id)).contains(
                            s1.loaded[i],
                        ));
                    }
                }
            }
            let to_unload2 = s3.loaded.filter(|id: usize| !nearby.contains(id));
            assert forall|i: int| 0 <= i < s3.loaded.len() implies !(
            |id: usize| !nearby.contains(id))(#[trigger] s3.loaded[i]) by {
                assert(resident(s3, s3.loaded[i]));
            }
            lemma_filter_none(s3.loaded, |id: usize| !nearby.contains(id));
            assert(to_unload2.len() == 0);
            let s2b = unload_ids_model(s1b, to_unload2);
            assert(s2b == s1b);
            // Every window chunk is resident or still unloadable, so nothing
            // loads.
            assert forall|i: int| 0 <= i < nearby.len() implies resident(
                s3,
                #[trigger] nearby[i],
            ) || !loadable(s3, nearby[i]) by {
                let x = nearby[i];
                assert(nearby.contains(x));
                if !resident(s3, x) {
                    assert(!(resident(s2, x) || (nearby.contains(x) && loadable(s2, x))));
                    assert(!loadable(s2, x));
                    assert(!resident(s2, x));
                    if x < s2.maps.len() {
                        assert(s3.maps[x as int] == s2.maps[x as int]);
                    }
                    assert(!loadable(s3, x));
                }
            }
            lemma_load_ids_noop(s3, nearby, ts);
            assert(update_model(s3, pos, ts) == s3);
        },
    }
}

/// A search that skips a mismatching prefix lands exactly on `k`.
proof fn lemma_chunk_index_at(chunks: Seq<crate::chunks::ChunkV>, id: usize, i: int, k: int)
    requires
        0 <= i <= k < chunks.len(),
        chunks[k].id == id,
        forall|j: int| i <= j < k ==> (#[trigger] chunks[j]).id != id,
    ensures
        chunk_index_from(chunks, id, i) == Some(k),
    decreases k - i,
{
    if i < k {
        lemma_chunk_index_at(chunks, id, i + 1, k);
    }
}

/// Loading a chunk and unloading it again restores the manager exactly:
/// the resident list, the loaded-id list, the map store, and the current
/// chunk all return to their previous values.
pub proof fn lemma_load_unload_roundtrip(s: CmV, id: usize, ts: Seq<MonsterV>)
    requires
        cm_wf(s),
        !resident(s, id),
    ensures
        unload_chunk_model(load_chunk_model(s, id, ts), id) == s,
{
    assert forall|j: int| 0 <= j < s.chunks.len() implies (#[trigger] s.chunks[j]).id != id by {
        if s.chunks[j].id == id {
            assert(s.loaded[j] == id);
            assert(s.loaded.contains(id));
        }
    }
    if loadable(s, id) {
        let s1 = load_chunk_model(s, id, ts);
        let n = s.chunks.len() as int;
        assert(s1.chunks[n].id == id);
        assert forall|j: int| 0 <= j < n implies (#[trigger] s1.chunks[j]).id != id by {
            assert(s1.chunks[j] == s.chunks[j]);
        }
        lemma_chunk_index_at(s1.chunks, id, 0, n);
        let s2 = unload_chunk_model(s1, id);
        assert(s2.chunks =~= s.chunks);
        assert(s2.loaded =~= s.loaded);
        assert(s1.chunks[n].map == s.maps[id as int].unwrap());
        assert(s2.maps =~= s.maps);
        assert(s2 =~= s);
    } else {
        lemma_unresident_no_index(s, id, 0);
    }
}

/// Whether the window cell `(cx + dx, cy + dy)` exists in the grid and
/// holds chunk id `x`.
pub open spec fn window_hit(s: CmV, cx: int, cy: int, dy: int, dx: int, x: usize) -> bool {
    let ny = cy + dy;
    let nx = cx + dx;
    &&& 0 <= ny < s.world.layout.len()
    &&& 0 <= nx < s.world.layout[ny].len()
    &&& s.world.layout[ny][nx] == x
}

/// Whether chunk id `x` appears in the view window around `center`'s grid
/// cell: some cell within Chebyshev distance `view_distance`, clipped to
/// the grid, holds it.
pub open spec fn in_window(s: CmV, center: usize, x: usize) -> bool
    recommends
        center < s.world.chunks.len(),
{
    let cfg = s.world.chunks[center as int];
    let v = s.world.info.view_distance;
    exists|dy: int, dx: int|
        -v <= dy <= v && -v <= dx <= v && window_hit(s, cfg.world_x, cfg.world_y, dy, dx, x)
}

/// Membership in a column scan: the accumulator's ids plus every id hit in
/// the remaining cells of the row.
proof fn lemma_cols_membership(
    s: CmV,
    cx: int,
    cy: int,
    v: int,
    dy: int,
    dx: int,
    acc: Seq<usize>,
    x: usize,
)
    ensures
        nearby_cols(s, cx, cy, v, dy, dx, acc).contains(x) <==> (acc.contains(x) || exists|d: int|
            dx <= d <= v && window_hit(s, cx, cy, dy, d, x)),
    decreases v + 1 - dx,
{
    if dx <= v {
        let acc2 = nearby_step(s, cx, cy, dy, dx, acc);
        assert(acc2.contains(x) <==> (acc.contains(x) || window_hit(s, cx, cy, dy, dx, x))) by {
            let ny = cy + dy;
            let nx = cx + dx;
            if 0 <= ny < s.world.layout.len() && 0 <= nx < s.world.layout[ny].len() {
                let id = s.world.layout[ny][nx];
                if !acc.contains(id) {
                    assert forall|y: usize| #[trigger] acc2.contains(y) implies (acc.contains(y)
                        || y == id) by {
                        let i = choose|i: int| 0 <= i < acc2.len() && acc2[i] == y;
                        if i < acc.len() {
                            assert(acc[i] == y);
                        }
                    }
                    assert(acc2[acc.len() as int] == id);
                    assert forall|y: usize| acc.contains(y) implies acc2.contains(y) by {
                        let i = choose|i: int| 0 <= i < acc.len() && acc[i] == y;
                        assert(acc2[i] == y);
                    }
                }
            }
        }
        lemma_cols_membership(s, cx, cy, v, dy, dx + 1, acc2, x);
        assert forall|d: int| dx <= d <= v && window_hit(s, cx, cy, dy, d, x) implies nearby_cols(
            s,
            cx,
            cy,
            v,
            dy,
            dx,
            acc,
        ).contains(x) by {
            if d == dx {
                assert(acc2.contains(x));
            }
        }
    }
}

/// Membership in a row scan: the accumulator's ids plus every id hit in the
/// remaining rows of the window.
proof fn lemma_rows_membership(
    s: CmV,
    cx: int,
    cy: int,
    v: int,
    dy: int,
    acc: Seq<usize>,
    x: usize,
)
    ensures
        nearby_rows(s, cx, cy, v, dy, acc).contains(x) <==> (acc.contains(x) || exists|
            e: int,
            d: int,
        |
            dy <= e <= v && -v <= d <= v && window_hit(s, cx, cy, e, d, x)),
    decreases v + 1 - dy,
{
    if dy <= v {
        let acc2 = nearby_cols(s, cx, cy, v, dy, -v, acc);
        lemma_cols_membership(s, cx, cy, v, dy, -v, acc, x);
        lemma_rows_membership(s, cx, cy, v, dy + 1, acc2, x);
        assert forall|e: int, d: int|
            dy <= e <= v && -v <= d <= v && window_hit(s, cx, cy, e, d, x) implies nearby_rows(
            s,
            cx,
            cy,
            v,
            dy,
            acc,
        ).contains(x) by {
            if e == dy {
                assert(acc2.contains(x));
            }
        }
    }
}

/// Membership in the view window list: the centre chunk plus every id hit
/// by a window cell.
pub proof fn lemma_nearby_membership(s: CmV, center: usize, x: usize)
    requires
        center < s.world.chunks.len(),
    ensures
        nearby_model(s, center).contains(x) <==> (x == center || in_window(s, center, x)),
{
    let base = seq![center];
    assert(base.contains(x) <==> x == center) by {
        if base.contains(x) {
            let i = choose|i: int| 0 <= i < base.len() && base[i] == x;
            assert(base[0] == center);
        } else {
            assert(base[0] == center);
        }
    }
    let cfg = s.world.chunks[center as int];
    let v = s.world.info.view_distance;
    lemma_rows_membership(s, cfg.world_x, cfg.world_y, v, -v, base, x);
}

/// After an update from a position whose chunk is valid, and whose whole
/// view window is resident or loadable, the resident set is exactly the
/// window: the chunks whose grid cell lies within the view distance
/// (Chebyshev, clipped to the grid), plus the current chunk itself.
pub proof fn lemma_update_resident_window(s: CmV, pos: V2, ts: Seq<MonsterV>)
    requires
        cm_wf(s),
        crate::chunks::templates_wf(ts),
        chunk_at_model(s, pos) is Some,
        chunk_at_model(s, pos).unwrap() < s.world.chunks.len(),
        forall|x: usize|
            (x == chunk_at_model(s, pos).unwrap() || in_window(
                s,
                chunk_at_model(s, pos).unwrap(),
                x,
            )) ==> resident(s, x) || loadable(s, x),
    ensures
        forall|x: usize|
            resident(update_model(s, pos, ts), x) <==> (x == chunk_at_model(s, pos).unwrap()
                || in_window(s, chunk_at_model(s, pos).unwrap(), x)),
{
    let c = chunk_at_model(s, pos).unwrap();
    let s1 = CmV { current: Some(c), ..s };
    let nearby = nearby_model(s1, c);
    let to_unload = s1.loaded.filter(|id: usize| !nearby.contains(id));
    let s2 = unload_ids_model(s1, to_unload);
    let s3 = load_ids_model(s2, nearby, ts);
    assert(update_model(s, pos, ts) == s3);
    assert(cm_wf(s1));
    broadcast use vstd::seq_lib::group_filter_ensures;

    lemma_unload_ids_effect(s1, to_unload);
    lemma_load_ids_effect(s2, nearby, ts);
    lemma_nearby_world(s1, s, c);
    assert forall|x: usize|
        resident(s3, x) <==> (x == c || in_window(s, c, x)) by {
        lemma_nearby_membership(s, c, x);
        assert(nearby.contains(x) <==> (x == c || in_window(s, c, x)));
        if resident(s3, x) {
            assert(resident(s2, x) || (nearby.contains(x) && loadable(s2, x)));
            if resident(s2, x) {
                assert(resident(s1, x) && !to_unload.contains(x));
                if !nearby.contains(x) {
                    let i = choose|i: int| 0 <= i < s1.loaded.len() && s1.loaded[i] == x;
                    assert(s1.loaded.filter(|id: usize| !nearby.contains(id)).contains(
                        s1.loaded[i],
                    ));
                }
            }
        }
        if nearby.contains(x) {
            assert(resident(s, x) || loadable(s, x));
            if resident(s1, x) {
                if to_unload.contains(x) {
                    assert(!nearby.contains(x));
                }
                assert(resident(s2, x));
                assert(resident(s3, x));
            } else {
                assert(loadable(s1, x));
                assert(!to_unload.contains(x) ==> s2.maps[x as int] == s1.maps[x as int]);
                if to_unload.contains(x) {
                    assert(resident(s1, x));
                }
                assert(loadable(s2, x));
                assert(resident(s3, x));
            }
        }
    }
}

} // verus!
