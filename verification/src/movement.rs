//! The movement resolver: a desired displacement is tested against
//! walkability and resolved into a legal move with axis-separated wall
//! sliding.  The player is tested at the four corners of its collision box;
//! monsters at a single point.  A move is never resolved into a position
//! that fails its own walkability test: a blocked actor stays where it is.

use vstd::prelude::*;
use crate::geom::{Vec2i, V2, COORD_LIMIT};
use crate::chunks::{walkable_model, ChunkManager, CmV};
use crate::player::RADIUS_LIMIT;

verus! {

/// Bound on a per-tick displacement.
pub const STEP_LIMIT: i32 = 10_000_000;

/// The sign of a displacement component.
pub open spec fn sign(v: int) -> int {
    if v > 0 {
        1
    } else if v < 0 {
        -1
    } else {
        0
    }
}

/// The magnitude of a displacement component.
pub open spec fn magnitude(v: int) -> int {
    if v >= 0 {
        v
    } else {
        -v
    }
}

/// Whether a position lies inside the coordinate range the resolver works
/// in; a candidate outside it is never accepted.
pub open spec fn pos_in_range(p: V2) -> bool {
    &&& -COORD_LIMIT as int <= p.x <= COORD_LIMIT as int
    &&& -COORD_LIMIT as int <= p.y <= COORD_LIMIT as int
}

/// Whether the player's collision box may stand at `p`: the position is in
/// range and all four corners, offset by `radius` on each axis, are
/// walkable.  One failing corner rejects the whole candidate.
pub open spec fn box_ok(s: CmV, p: V2, radius: int) -> bool {
    &&& pos_in_range(p)
    &&& walkable_model(s, V2 { x: p.x - radius, y: p.y - radius })
    &&& walkable_model(s, V2 { x: p.x + radius, y: p.y - radius })
    &&& walkable_model(s, V2 { x: p.x - radius, y: p.y + radius })
    &&& walkable_model(s, V2 { x: p.x + radius, y: p.y + radius })
}

/// Whether a single-point actor may stand at `p`.
pub open spec fn point_ok(s: CmV, p: V2) -> bool {
    pos_in_range(p) && walkable_model(s, p)
}

/// The reduced-speed slide tried when a diagonal input leaves the player
/// stuck: at 30% of the scalar speed, first along the axis with the larger
/// input magnitude, then along the other; staying put when both fail.
pub open spec fn slide_fallback(s: CmV, pos: V2, input: V2, speed: int, radius: int) -> V2 {
    let slide = speed * 3 / 10;
    let horizontal = V2 { x: pos.x + sign(input.x) * slide, y: pos.y };
    let vertical = V2 { x: pos.x, y: pos.y + sign(input.y) * slide };
    if magnitude(input.x) > magnitude(input.y) {
        if box_ok(s, horizontal, radius) {
            horizontal
        } else if box_ok(s, vertical, radius) {
            vertical
        } else {
            pos
        }
    } else {
        if box_ok(s, vertical, radius) {
            vertical
        } else if box_ok(s, horizontal, radius) {
            horizontal
        } else {
            pos
        }
    }
}

/// Where the player ends up: no input means no movement; a feasible full
/// displacement is taken outright; otherwise the horizontal displacement is
/// tried from the current position, the vertical displacement from the
/// (possibly updated) x, each applied only when its own test passes; and a
/// diagonal input that still leaves the player in place falls back to the
/// reduced-speed slide.
pub open spec fn player_move_spec(
    s: CmV,
    pos: V2,
    input: V2,
    step: V2,
    speed: int,
    radius: int,
) -> V2 {
    if input.x == 0 && input.y == 0 {
        pos
    } else {
        let desired = V2 { x: pos.x + step.x, y: pos.y + step.y };
        if box_ok(s, desired, radius) {
            desired
        } else {
            let fx = if input.x != 0 && box_ok(s, V2 { x: pos.x + step.x, y: pos.y }, radius) {
                pos.x + step.x
            } else {
                pos.x
            };
            let fy = if input.y != 0 && box_ok(s, V2 { x: fx, y: pos.y + step.y }, radius) {
                pos.y + step.y
            } else {
                pos.y
            };
            let slid = V2 { x: fx, y: fy };
            if slid == pos && input.x != 0 && input.y != 0 {
                slide_fallback(s, pos, input, speed, radius)
            } else {
                slid
            }
        }
    }
}

/// Where a monster ends up: a feasible full displacement is taken outright,
/// otherwise each axis is tried separately (the vertical test from the
/// possibly updated x), with no reduced-speed fallback.
pub open spec fn monster_move_spec(s: CmV, pos: V2, step: V2) -> V2 {
    let desired = V2 { x: pos.x + step.x, y: pos.y + step.y };
    if point_ok(s, desired) {
        desired
    } else {
        let fx = if step.x != 0 && point_ok(s, V2 { x: pos.x + step.x, y: pos.y }) {
            pos.x + step.x
        } else {
            pos.x
        };
        let fy = if step.y != 0 && point_ok(s, V2 { x: fx, y: pos.y + step.y }) {
            pos.y + step.y
        } else {
            pos.y
        };
        V2 { x: fx, y: fy }
    }
}

/// Decides `box_ok` at run time.
fn box_walkable(cm: &ChunkManager, p: Vec2i, radius: i32) -> (b: bool)
    requires
        cm.wf(),
        0 <= radius <= RADIUS_LIMIT,
    ensures
        b == box_ok(cm@, p@, radius as int),
{
    if p.x < -COORD_LIMIT || p.x > COORD_LIMIT || p.y < -COORD_LIMIT || p.y > COORD_LIMIT {
        return false;
    }
    let corners = [
        Vec2i { x: p.x - radius, y: p.y - radius },
        Vec2i { x: p.x + radius, y: p.y - radius },
        Vec2i { x: p.x - radius, y: p.y + radius },
        Vec2i { x: p.x + radius, y: p.y + radius },
    ];
    cm.is_position_walkable(corners[0]) && cm.is_position_walkable(corners[1])
        && cm.is_position_walkable(corners[2]) && cm.is_position_walkable(corners[3])
}

/// Decides `point_ok` at run time.
fn point_walkable(cm: &ChunkManager, p: Vec2i) -> (b: bool)
    requires
        cm.wf(),
    ensures
        b == point_ok(cm@, p@),
{
    if p.x < -COORD_LIMIT || p.x > COORD_LIMIT || p.y < -COORD_LIMIT || p.y > COORD_LIMIT {
        return false;
    }
    cm.is_position_walkable(p)
}

/// Resolves one tick of player movement.  `input` is the raw direction
/// (only its signs and relative magnitudes matter), `step` the desired
/// displacement for this tick, `speed` the scalar displacement the step was
/// scaled to, and `radius` the half-side of the player's collision box.
/// The result is either the unchanged position or one whose collision box
/// is fully walkable: the player never ends up inside a wall.
pub fn resolve_player_move(
    cm: &ChunkManager,
    pos: Vec2i,
    input: Vec2i,
    step: Vec2i,
    speed: i32,
    radius: i32,
) -> (r: Vec2i)
    requires
        cm.wf(),
        pos_in_range(pos@),
        -STEP_LIMIT <= step@.x <= STEP_LIMIT,
        -STEP_LIMIT <= step@.y <= STEP_LIMIT,
        0 <= speed <= STEP_LIMIT,
        0 <= radius <= RADIUS_LIMIT,
    ensures
        r@ == player_move_spec(cm@, pos@, input@, step@, speed as int, radius as int),
        r@ == pos@ || box_ok(cm@, r@, radius as int),
        pos_in_range(r@),
{
    if input.x == 0 && input.y == 0 {
        return pos;
    }
    let desired = Vec2i { x: pos.x + step.x, y: pos.y + step.y };
    if box_walkable(cm, desired, radius) {
        return desired;
    }
    let mut final_pos = pos;
    if input.x != 0 {
        let horizontal = Vec2i { x: pos.x + step.x, y: pos.y };
        if box_walkable(cm, horizontal, radius) {
            final_pos.x = horizontal.x;
        }
    }
    if input.y != 0 {
        let vertical = Vec2i { x: final_pos.x, y: pos.y + step.y };
        if box_walkable(cm, vertical, radius) {
            final_pos.y = vertical.y;
        }
    }
    if final_pos.x == pos.x && final_pos.y == pos.y && input.x != 0 && input.y != 0 {
        let slide = ((speed as u32) * 3 / 10) as i32;
        proof {
            assert(slide == speed * 3 / 10);
        }
        let offset_x: i32 = if input.x > 0 {
            slide
        } else if input.x < 0 {
            0 - slide
        } else {
            0
        };
        let offset_y: i32 = if input.y > 0 {
            slide
        } else if input.y < 0 {
            0 - slide
        } else {
            0
        };
        proof {
            assert(offset_x == sign(input@.x) * (speed * 3 / 10));
            assert(offset_y == sign(input@.y) * (speed * 3 / 10));
        }
        let horizontal = Vec2i { x: pos.x + offset_x, y: pos.y };
        let vertical = Vec2i { x: pos.x, y: pos.y + offset_y };
        let mag_x: i64 = if input.x >= 0 {
            input.x as i64
        } else {
            -(input.x as i64)
        };
        let mag_y: i64 = if input.y >= 0 {
            input.y as i64
        } else {
            -(input.y as i64)
        };
        if mag_x > mag_y {
            if box_walkable(cm, horizontal, radius) {
                return horizontal;
            }
            if box_walkable(cm, vertical, radius) {
                return vertical;
            }
            return pos;
        } else {
            if box_walkable(cm, vertical, radius) {
                return vertical;
            }
            if box_walkable(cm, horizontal, radius) {
                return horizontal;
            }
            return pos;
        }
    }
    final_pos
}

/// Resolves one tick of monster movement: single-point test, axis-separated
/// fallback, no reduced-speed slide.  The result is either the unchanged
/// position or a walkable one.
pub fn resolve_monster_move(cm: &ChunkManager, pos: Vec2i, step: Vec2i) -> (r: Vec2i)
    requires
        cm.wf(),
        pos_in_range(pos@),
        -STEP_LIMIT <= step@.x <= STEP_LIMIT,
        -STEP_LIMIT <= step@.y <= STEP_LIMIT,
    ensures
        r@ == monster_move_spec(cm@, pos@, step@),
        r@ == pos@ || point_ok(cm@, r@),
        pos_in_range(r@),
{
    let desired = Vec2i { x: pos.x + step.x, y: pos.y + step.y };
    if point_walkable(cm, desired) {
        return desired;
    }
    let mut final_pos = pos;
    if step.x != 0 {
        let horizontal = Vec2i { x: pos.x + step.x, y: pos.y };
        if point_walkable(cm, horizontal) {
            final_pos.x = horizontal.x;
        }
    }
    if step.y != 0 {
        let vertical = Vec2i { x: final_pos.x, y: pos.y + step.y };
        if point_walkable(cm, vertical) {
            final_pos.y = vertical.y;
        }
    }
    proof {
        if final_pos@ != pos@ {
            assert(point_ok(cm@, final_pos@));
        }
    }
    final_pos
}

/// Wall sliding along an open axis: when a diagonal move is blocked as a
/// whole but its horizontal part is feasible on its own, the move resolves
/// to the pure horizontal displacement — never to a partial diagonal that
/// would clip the blocking tile.
pub proof fn lemma_diagonal_slide_horizontal(
    s: CmV,
    pos: V2,
    input: V2,
    step: V2,
    speed: int,
    radius: int,
)
    requires
        input.x != 0,
        input.y != 0,
        step.x != 0,
        !box_ok(s, V2 { x: pos.x + step.x, y: pos.y + step.y }, radius),
        box_ok(s, V2 { x: pos.x + step.x, y: pos.y }, radius),
    ensures
        player_move_spec(s, pos, input, step, speed, radius) == (V2 {
            x: pos.x + step.x,
            y: pos.y,
        }),
{
}

/// The mirror image: a blocked diagonal whose horizontal part is also
/// blocked but whose vertical part is feasible resolves to the pure
/// vertical displacement.
pub proof fn lemma_diagonal_slide_vertical(
    s: CmV,
    pos: V2,
    input: V2,
    step: V2,
    speed: int,
    radius: int,
)
    requires
        input.x != 0,
        input.y != 0,
        step.y != 0,
        !box_ok(s, V2 { x: pos.x + step.x, y: pos.y + step.y }, radius),
        !box_ok(s, V2 { x: pos.x + step.x, y: pos.y }, radius),
        box_ok(s, V2 { x: pos.x, y: pos.y + step.y }, radius),
    ensures
        player_move_spec(s, pos, input, step, speed, radius) == (V2 {
            x: pos.x,
            y: pos.y + step.y,
        }),
{
}

/// The player never ends a resolved move inside a wall: the result of
/// `player_move_spec` is the unchanged position or a fully feasible one.
/// In particular, in a fully walled room every blocked attempt returns the
/// original position.
pub proof fn lemma_player_move_safe(s: CmV, pos: V2, input: V2, step: V2, speed: int, radius: int)
    ensures
        player_move_spec(s, pos, input, step, speed, radius) == pos || box_ok(
            s,
            player_move_spec(s, pos, input, step, speed, radius),
            radius,
        ),
{
    let r = player_move_spec(s, pos, input, step, speed, radius);
    if !(input.x == 0 && input.y == 0) {
        let desired = V2 { x: pos.x + step.x, y: pos.y + step.y };
        if !box_ok(s, desired, radius) {
            let fx = if input.x != 0 && box_ok(s, V2 { x: pos.x + step.x, y: pos.y }, radius) {
                pos.x + step.x
            } else {
                pos.x
            };
            let fy = if input.y != 0 && box_ok(s, V2 { x: fx, y: pos.y + step.y }, radius) {
                pos.y + step.y
            } else {
                pos.y
            };
            let slid = V2 { x: fx, y: fy };
            if !(slid == pos && input.x != 0 && input.y != 0) {
                if slid != pos {
                    if fy == pos.y + step.y && input.y != 0 && box_ok(
                        s,
                        V2 { x: fx, y: pos.y + step.y },
                        radius,
                    ) {
                        assert(box_ok(s, slid, radius));
                    }
                }
            }
        }
    }
}

} // verus!
