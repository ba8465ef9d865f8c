//! Tile painting tools: single tiles, rectangles, lines, multi-tile stamps
//! and bucket fill, applied to the active layer, each painted cell reported
//! as a paint event for the tilemap renderer.

use std::collections::HashSet;
use vstd::prelude::*;
use crate::layer_manager::{
    is_at, layer_tiles_replaced, lemma_tile_at_with_tile, tile_added, tile_at, with_tile, LayerData,
    LayerManager, TileData,
};

verus! {

broadcast use vstd::std_specs::hash::group_hash_axioms;

/// Notice to the renderer that a tile was painted on a cell.
#[derive(Clone, Copy, Debug, PartialEq, Eq, Structural)]
pub struct PaintTileEvent {
    pub layer_id: u32,
    pub x: u32,
    pub y: u32,
    pub tile_id: u32,
}

/// The tile painted by a tool on cell `(x, y)`.
pub open spec fn painted_tile(x: u32, y: u32, tile_id: u32, flip_x: bool, flip_y: bool) -> TileData {
    TileData { x, y, tile_id, flip_x, flip_y }
}

/// The paint event sent for cell `(x, y)`.
pub open spec fn paint_event(x: u32, y: u32, tile_id: u32) -> PaintTileEvent {
    PaintTileEvent { layer_id: 0, x, y, tile_id }
}

/// `lm1` and `ev1` are `lm0` and `ev0` after painting one tile on `(x, y)`:
/// the tile goes on the active layer and one event reports it.
pub open spec fn single_painted(
    lm0: LayerManager,
    ev0: Seq<PaintTileEvent>,
    lm1: LayerManager,
    ev1: Seq<PaintTileEvent>,
    x: u32,
    y: u32,
    tile_id: u32,
    flip_x: bool,
    flip_y: bool,
) -> bool {
    &&& tile_added(lm0, lm1, painted_tile(x, y, tile_id, flip_x, flip_y))
    &&& ev1 == ev0.push(paint_event(x, y, tile_id))
}

/// Paints one tile on the active layer and reports it.
pub fn paint_single_tile(
    x: u32,
    y: u32,
    tile_id: u32,
    flip_x: bool,
    flip_y: bool,
    layer_manager: &mut LayerManager,
    paint_events: &mut Vec<PaintTileEvent>,
)
    ensures
        single_painted(
            *old(layer_manager),
            old(paint_events)@,
            *final(layer_manager),
            final(paint_events)@,
            x,
            y,
            tile_id,
            flip_x,
            flip_y,
        ),
{
    let tile = TileData { x, y, tile_id, flip_x, flip_y };
    layer_manager.add_tile(tile);
    paint_events.push(PaintTileEvent { layer_id: 0, x, y, tile_id });
}

/// `new` is `old` after painting every cell for which `cells` holds with the
/// same tile on the active layer; nothing else changes.
pub open spec fn cells_painted(
    old: LayerManager,
    new: LayerManager,
    cells: spec_fn((u32, u32)) -> bool,
    tile_id: u32,
    flip_x: bool,
    flip_y: bool,
) -> bool {
    &&& new.active_layer == old.active_layer
    &&& new.layer_visibility == old.layer_visibility
    &&& new.next_id == old.next_id
    &&& match old.active_index() {
        Some(i) => {
            &&& layer_tiles_replaced(old.layers@, new.layers@, i, new.layers@[i].tiles@)
            &&& forall|x: u32, y: u32| #[trigger] tile_at(new.layers@[i].tiles@, x, y) == if cells((x, y)) {
                Some(painted_tile(x, y, tile_id, flip_x, flip_y))
            } else {
                tile_at(old.layers@[i].tiles@, x, y)
            }
        },
        None => new.layers == old.layers,
    }
}

pub proof fn lemma_cells_painted_none(lm: LayerManager, tile_id: u32, flip_x: bool, flip_y: bool)
    ensures
        cells_painted(lm, lm, |c: (u32, u32)| false, tile_id, flip_x, flip_y),
{
}

pub proof fn lemma_cells_painted_step(
    a: LayerManager,
    b: LayerManager,
    c: LayerManager,
    cells: spec_fn((u32, u32)) -> bool,
    x: u32,
    y: u32,
    tile_id: u32,
    flip_x: bool,
    flip_y: bool,
)
    requires
        cells_painted(a, b, cells, tile_id, flip_x, flip_y),
        tile_added(b, c, painted_tile(x, y, tile_id, flip_x, flip_y)),
    ensures
        cells_painted(a, c, |q: (u32, u32)| cells(q) || q == (x, y), tile_id, flip_x, flip_y),
{
    if let Some(i) = a.active_index() {
        assert(b.active_index() == Some(i));
        assert forall|x2: u32, y2: u32| #[trigger] tile_at(c.layers@[i].tiles@, x2, y2) == if cells((x2, y2)) || (x2, y2) == (x, y) {
            Some(painted_tile(x2, y2, tile_id, flip_x, flip_y))
        } else {
            tile_at(a.layers@[i].tiles@, x2, y2)
        } by {
            lemma_tile_at_with_tile(b.layers@[i].tiles@, painted_tile(x, y, tile_id, flip_x, flip_y), x2, y2);
        }
        assert forall|j: int| 0 <= j < a.layers@.len() && j != i implies #[trigger] c.layers@[j] == a.layers@[j] by {
            assert(c.layers@[j] == b.layers@[j]);
        }
    } else {
        assert(b.active_index() is None);
    }
}

/// Adds the event for cell `c` to a run of events that reports the cells of
/// `cells` once each.
pub proof fn lemma_events_cover_step(
    events: Seq<PaintTileEvent>,
    from: int,
    tile_id: u32,
    cells: spec_fn((u32, u32)) -> bool,
    c: (u32, u32),
)
    requires
        events_cover(events, from, tile_id, cells),
        !cells(c),
    ensures
        events_cover(
            events.push(paint_event(c.0, c.1, tile_id)),
            from,
            tile_id,
            |q: (u32, u32)| cells(q) || q == c,
        ),
{
    let after = events.push(paint_event(c.0, c.1, tile_id));
    let grown = |q: (u32, u32)| cells(q) || q == c;
    let n = events.len() as int;
    assert forall|k: int| from <= k < after.len() implies #[trigger] after[k] == paint_event(after[k].x, after[k].y, tile_id)
        && grown((after[k].x, after[k].y)) by {
        if k < n {
            assert(after[k] == events[k]);
        }
    }
    assert forall|q: (u32, u32)| #[trigger] grown(q) implies exists|k: int| from <= k < after.len()
        && (#[trigger] after[k]).x == q.0 && after[k].y == q.1 by {
        if q == c {
            assert(after[n].x == q.0 && after[n].y == q.1);
        } else {
            let k = choose|k: int| from <= k < events.len() && (#[trigger] events[k]).x == q.0 && events[k].y == q.1;
            assert(after[k] == events[k]);
        }
    }
    assert forall|k1: int, k2: int| from <= k1 < k2 < after.len() implies !((#[trigger] after[k1]).x == (
    #[trigger] after[k2]).x && after[k1].y == after[k2].y) by {
        assert(after[k1] == events[k1]);
        if k2 == n {
            assert(cells((events[k1].x, events[k1].y)));
        } else {
            assert(after[k2] == events[k2]);
        }
    }
}

// ---------------------------------------------------------------------------
// Rectangle
// ---------------------------------------------------------------------------

/// Cell `c` lies in the rectangle with corners `(x0, y0)` and `(x1, y1)`,
/// edges included.
pub open spec fn in_rect(c: (u32, u32), x0: u32, y0: u32, x1: u32, y1: u32) -> bool {
    &&& (x0 <= c.0 <= x1 || x1 <= c.0 <= x0)
    &&& (y0 <= c.1 <= y1 || y1 <= c.1 <= y0)
}

/// Cell `a` comes before cell `b` row by row: lower row first, then lower
/// column.
pub open spec fn row_major_before(a: (u32, u32), b: (u32, u32)) -> bool {
    a.1 < b.1 || (a.1 == b.1 && a.0 < b.0)
}

/// The events of `events` past `from` are in row-major order of their cells.
pub open spec fn events_row_major(events: Seq<PaintTileEvent>, from: int) -> bool {
    forall|k1: int, k2: int|
        from <= k1 < k2 < events.len() ==> row_major_before(
            ((#[trigger] events[k1]).x, events[k1].y),
            ((#[trigger] events[k2]).x, events[k2].y),
        )
}

/// The cells of the rectangle with corners `start` and `end`.
pub open spec fn rect_cells(start: (u32, u32), end: (u32, u32)) -> spec_fn((u32, u32)) -> bool {
    |c: (u32, u32)| in_rect(c, start.0, start.1, end.0, end.1)
}

/// `lm1` and `ev1` are `lm0` and `ev0` after painting the rectangle with
/// corners `start` and `end`: every cell of it holds the tile, and the new
/// events report each of its cells once, row by row.
pub open spec fn rectangle_painted(
    lm0: LayerManager,
    ev0: Seq<PaintTileEvent>,
    lm1: LayerManager,
    ev1: Seq<PaintTileEvent>,
    start: (u32, u32),
    end: (u32, u32),
    tile_id: u32,
    flip_x: bool,
    flip_y: bool,
) -> bool {
    &&& cells_painted(lm0, lm1, rect_cells(start, end), tile_id, flip_x, flip_y)
    &&& ev1.subrange(0, ev0.len() as int) == ev0
    &&& events_cover(ev1, ev0.len() as int, tile_id, rect_cells(start, end))
    &&& events_row_major(ev1, ev0.len() as int)
}

/// Paints `tile_id` on every cell of the rectangle with corners
/// `(start_x, start_y)` and `(end_x, end_y)`, row by row from the lowest row
/// and column, reporting each cell once in that order.
pub fn paint_rectangle(
    start_x: u32,
    start_y: u32,
    end_x: u32,
    end_y: u32,
    tile_id: u32,
    flip_x: bool,
    flip_y: bool,
    layer_manager: &mut LayerManager,
    paint_events: &mut Vec<PaintTileEvent>,
)
    ensures
        rectangle_painted(
            *old(layer_manager),
            old(paint_events)@,
            *final(layer_manager),
            final(paint_events)@,
            (start_x, start_y),
            (end_x, end_y),
            tile_id,
            flip_x,
            flip_y,
        ),
{
    let ghost old_lm = *layer_manager;
    let ghost n0 = paint_events@.len() as int;
    let min_x = if start_x < end_x { start_x } else { end_x };
    let max_x = if start_x < end_x { end_x } else { start_x };
    let min_y = if start_y < end_y { start_y } else { end_y };
    let max_y = if start_y < end_y { end_y } else { start_y };
    proof {
        lemma_cells_painted_none(old_lm, tile_id, flip_x, flip_y);
        assert(paint_events@.subrange(0, n0) =~= old(paint_events)@);
        let none = |c: (u32, u32)| false;
        let rows0 = |c: (u32, u32)| min_y <= c.1 < min_y && min_x <= c.0 <= max_x;
        assert(none =~= rows0);
    }
    let mut y = min_y;
    loop
        invariant_except_break
            cells_painted(
                old_lm,
                *layer_manager,
                |c: (u32, u32)| min_y <= c.1 < y && min_x <= c.0 <= max_x,
                tile_id,
                flip_x,
                flip_y,
            ),
            events_cover(paint_events@, n0, tile_id, |c: (u32, u32)| min_y <= c.1 < y && min_x <= c.0 <= max_x),
        invariant
            old_lm == *old(layer_manager),
            n0 == old(paint_events)@.len(),
            min_x <= max_x,
            min_y <= y <= max_y,
            paint_events@.subrange(0, n0) == old(paint_events)@,
            events_row_major(paint_events@, n0),
        ensures
            cells_painted(
                old_lm,
                *layer_manager,
                |c: (u32, u32)| min_y <= c.1 <= max_y && min_x <= c.0 <= max_x,
                tile_id,
                flip_x,
                flip_y,
            ),
            paint_events@.subrange(0, n0) == old(paint_events)@,
            events_cover(paint_events@, n0, tile_id, |c: (u32, u32)| min_y <= c.1 <= max_y && min_x <= c.0 <= max_x),
            events_row_major(paint_events@, n0),
        decreases max_y - y,
    {
        proof {
            let a = |c: (u32, u32)| min_y <= c.1 < y && min_x <= c.0 <= max_x;
            let b = |c: (u32, u32)| (min_y <= c.1 < y && min_x <= c.0 <= max_x) || (c.1 == y && min_x <= c.0 < min_x);
            assert(a =~= b);
        }
        let mut x = min_x;
        loop
            invariant_except_break
                cells_painted(
                    old_lm,
                    *layer_manager,
                    |c: (u32, u32)| (min_y <= c.1 < y && min_x <= c.0 <= max_x) || (c.1 == y && min_x <= c.0 < x),
                    tile_id,
                    flip_x,
                    flip_y,
                ),
                events_cover(
                    paint_events@,
                    n0,
                    tile_id,
                    |c: (u32, u32)| (min_y <= c.1 < y && min_x <= c.0 <= max_x) || (c.1 == y && min_x <= c.0 < x),
                ),
            invariant
                old_lm == *old(layer_manager),
                n0 == old(paint_events)@.len(),
                min_x <= x <= max_x,
                min_y <= y <= max_y,
                paint_events@.subrange(0, n0) == old(paint_events)@,
                events_row_major(paint_events@, n0),
            ensures
                min_y <= y <= max_y,
                cells_painted(
                    old_lm,
                    *layer_manager,
                    |c: (u32, u32)| min_y <= c.1 <= y && min_x <= c.0 <= max_x,
                    tile_id,
                    flip_x,
                    flip_y,
                ),
                paint_events@.subrange(0, n0) == old(paint_events)@,
                events_cover(paint_events@, n0, tile_id, |c: (u32, u32)| min_y <= c.1 <= y && min_x <= c.0 <= max_x),
                events_row_major(paint_events@, n0),
            decreases max_x - x,
        {
            let ghost lm_before = *layer_manager;
            let ghost ev_before = paint_events@;
            let ghost done = |c: (u32, u32)| (min_y <= c.1 < y && min_x <= c.0 <= max_x) || (c.1 == y && min_x <= c.0 < x);
            paint_single_tile(x, y, tile_id, flip_x, flip_y, layer_manager, paint_events);
            proof {
                lemma_cells_painted_step(old_lm, lm_before, *layer_manager, done, x, y, tile_id, flip_x, flip_y);
                lemma_events_cover_step(ev_before, n0, tile_id, done, (x, y));
                assert(paint_events@.subrange(0, n0) =~= ev_before.subrange(0, n0));
                assert forall|k1: int, k2: int| n0 <= k1 < k2 < paint_events@.len() implies row_major_before(
                    ((#[trigger] paint_events@[k1]).x, paint_events@[k1].y),
                    ((#[trigger] paint_events@[k2]).x, paint_events@[k2].y),
                ) by {
                    assert(paint_events@[k1] == ev_before[k1]);
                    if k2 < ev_before.len() {
                        assert(paint_events@[k2] == ev_before[k2]);
                    } else {
                        assert(done((ev_before[k1].x, ev_before[k1].y)));
                    }
                }
            }
            if x == max_x {
                proof {
                    let grown = |q: (u32, u32)| done(q) || q == (x, y);
                    let full = |c: (u32, u32)| min_y <= c.1 <= y && min_x <= c.0 <= max_x;
                    assert(grown =~= full);
                }
                break;
            }
            x = x + 1;
            proof {
                let grown = |q: (u32, u32)| done(q) || q == ((x - 1) as u32, y);
                let next = |c: (u32, u32)| (min_y <= c.1 < y && min_x <= c.0 <= max_x) || (c.1 == y && min_x <= c.0 < x);
                assert(grown =~= next);
            }
        }
        if y == max_y {
            break;
        }
        y = y + 1;
        proof {
            let a = |c: (u32, u32)| min_y <= c.1 <= (y - 1) as u32 && min_x <= c.0 <= max_x;
            let b = |c: (u32, u32)| min_y <= c.1 < y && min_x <= c.0 <= max_x;
            assert(a =~= b);
        }
    }
    proof {
        let a = |c: (u32, u32)| min_y <= c.1 <= max_y && min_x <= c.0 <= max_x;
        let b = |c: (u32, u32)| in_rect(c, start_x, start_y, end_x, end_y);
        assert(a =~= b);
    }
}

// ---------------------------------------------------------------------------
// Line
// ---------------------------------------------------------------------------

/// Distance between two coordinates.
pub open spec fn dist(a: u32, b: u32) -> int {
    if a <= b {
        b - a
    } else {
        a - b
    }
}

/// The cell after `p` on the line from `s` to `e`, by the midpoint rule:
/// with `a`, `b` the steps taken along x and y so far and `dx`, `dy` the
/// extents of the line, x advances iff `(2b + 2) * dx > (2a + 1) * dy` and y
/// advances iff `(2b + 1) * dx < (2a + 2) * dy`, each toward `e`.
pub open spec fn line_next(s: (u32, u32), e: (u32, u32), p: (u32, u32)) -> (u32, u32) {
    let dx = dist(s.0, e.0);
    let dy = dist(s.1, e.1);
    let a = dist(s.0, p.0);
    let b = dist(s.1, p.1);
    let nx: int = if (2 * b + 2) * dx > (2 * a + 1) * dy {
        if s.0 < e.0 {
            p.0 + 1
        } else {
            p.0 - 1
        }
    } else {
        p.0 as int
    };
    let ny: int = if (2 * b + 1) * dx < (2 * a + 2) * dy {
        if s.1 < e.1 {
            p.1 + 1
        } else {
            p.1 - 1
        }
    } else {
        p.1 as int
    };
    (nx as u32, ny as u32)
}

/// The cell reported by event `k` of `events`.
pub open spec fn event_cell(events: Seq<PaintTileEvent>, k: int) -> (u32, u32) {
    (events[k].x, events[k].y)
}

/// The events of `events` from `from` on walk the line from `s` to `e`: they
/// start on `s`, each next cell follows by `line_next`, and they stop on
/// reaching `e`.
pub open spec fn events_walk_line(
    events: Seq<PaintTileEvent>,
    from: int,
    s: (u32, u32),
    e: (u32, u32),
    tile_id: u32,
) -> bool {
    &&& 0 <= from < events.len()
    &&& event_cell(events, from) == s
    &&& event_cell(events, events.len() - 1) == e
    &&& forall|k: int| from <= k < events.len() ==> #[trigger] events[k] == paint_event(events[k].x, events[k].y, tile_id)
    &&& forall|k: int|
        from <= k < events.len() - 1 ==> #[trigger] event_cell(events, k) != e && event_cell(events, k + 1) == line_next(
            s,
            e,
            event_cell(events, k),
        )
}

/// The cells reported by the events of `events` from `from` on.
pub open spec fn reported_cells(events: Seq<PaintTileEvent>, from: int) -> spec_fn((u32, u32)) -> bool {
    |c: (u32, u32)| exists|k: int| from <= k < events.len() && event_cell(events, k) == c
}

/// Largest coordinate the line tool takes: cells come from non-negative
/// 32-bit signed grid positions.
pub open spec fn line_coord_limit() -> u32 {
    0x7fff_ffff
}

/// `lm1` and `ev1` are `lm0` and `ev0` after drawing the line from `start`
/// to `end`: the new events walk the line cell by cell, and exactly the
/// cells they report hold the tile.
pub open spec fn line_painted(
    lm0: LayerManager,
    ev0: Seq<PaintTileEvent>,
    lm1: LayerManager,
    ev1: Seq<PaintTileEvent>,
    start: (u32, u32),
    end: (u32, u32),
    tile_id: u32,
    flip_x: bool,
    flip_y: bool,
) -> bool {
    &&& ev1.subrange(0, ev0.len() as int) == ev0
    &&& events_walk_line(ev1, ev0.len() as int, start, end, tile_id)
    &&& cells_painted(lm0, lm1, reported_cells(ev1, ev0.len() as int), tile_id, flip_x, flip_y)
}

/// Draws the line of tiles from `(start_x, start_y)` to `(end_x, end_y)`
/// (Bresenham's algorithm), reporting each cell in order along the line.
/// The error term is kept in 64 bits, so no coordinate the tool takes can
/// overflow it.
pub fn paint_line(
    start_x: u32,
    start_y: u32,
    end_x: u32,
    end_y: u32,
    tile_id: u32,
    flip_x: bool,
    flip_y: bool,
    layer_manager: &mut LayerManager,
    paint_events: &mut Vec<PaintTileEvent>,
)
    requires
        start_x <= line_coord_limit(),
        start_y <= line_coord_limit(),
        end_x <= line_coord_limit(),
        end_y <= line_coord_limit(),
    ensures
        line_painted(
            *old(layer_manager),
            old(paint_events)@,
            *final(layer_manager),
            final(paint_events)@,
            (start_x, start_y),
            (end_x, end_y),
            tile_id,
            flip_x,
            flip_y,
        ),
{
    let ghost old_lm = *layer_manager;
    let ghost n0 = paint_events@.len() as int;
    let ghost s = (start_x, start_y);
    let ghost e = (end_x, end_y);
    let dx: i64 = if end_x >= start_x { (end_x - start_x) as i64 } else { (start_x - end_x) as i64 };
    let dy: i64 = if end_y >= start_y { (end_y - start_y) as i64 } else { (start_y - end_y) as i64 };
    let sx: i64 = if start_x < end_x { 1 } else { -1 };
    let sy: i64 = if start_y < end_y { 1 } else { -1 };
    let mut err: i64 = dx - dy;
    let mut x: i64 = start_x as i64;
    let mut y: i64 = start_y as i64;
    let ghost mut a: int = 0;
    let ghost mut b: int = 0;
    proof {
        lemma_cells_painted_none(old_lm, tile_id, flip_x, flip_y);
        assert(paint_events@.subrange(0, n0) =~= old(paint_events)@);
        let none = |c: (u32, u32)| false;
        assert(none =~= reported_cells(paint_events@, n0));
    }
    loop
        invariant_except_break
            (x as u32, y as u32) == (if paint_events@.len() == n0 {
                s
            } else {
                line_next(s, e, event_cell(paint_events@, paint_events@.len() - 1))
            }),
            paint_events@.len() > n0 ==> event_cell(paint_events@, n0) == s,
            forall|k: int| n0 <= k < paint_events@.len() ==> #[trigger] event_cell(paint_events@, k) != e,
            cells_painted(old_lm, *layer_manager, reported_cells(paint_events@, n0), tile_id, flip_x, flip_y),
        invariant
            old_lm == *old(layer_manager),
            n0 == old(paint_events)@.len(),
            s == (start_x, start_y),
            e == (end_x, end_y),
            start_x <= line_coord_limit(),
            start_y <= line_coord_limit(),
            end_x <= line_coord_limit(),
            end_y <= line_coord_limit(),
            dx == dist(start_x, end_x),
            dy == dist(start_y, end_y),
            sx == (if start_x < end_x { 1i64 } else { -1i64 }),
            sy == (if start_y < end_y { 1i64 } else { -1i64 }),
            0 <= dx <= line_coord_limit(),
            0 <= dy <= line_coord_limit(),
            0 <= a <= dx,
            0 <= b <= dy,
            x as int == (if start_x < end_x { start_x + a } else { start_x - a }),
            y as int == (if start_y < end_y { start_y + b } else { start_y - b }),
            0 <= x <= line_coord_limit(),
            0 <= y <= line_coord_limit(),
            a == dist(start_x, x as u32),
            b == dist(start_y, y as u32),
            n0 <= paint_events@.len(),
            err == dx - dy - a * dy + b * dx,
            dx - 3 * dy <= 2 * err <= 3 * dx - dy,
            paint_events@.subrange(0, n0) == old(paint_events)@,
            forall|k: int| n0 <= k < paint_events@.len() ==> #[trigger] paint_events@[k] == paint_event(
                paint_events@[k].x,
                paint_events@[k].y,
                tile_id,
            ),
            forall|k: int|
                n0 <= k < paint_events@.len() - 1 ==> #[trigger] event_cell(paint_events@, k + 1) == line_next(
                    s,
                    e,
                    event_cell(paint_events@, k),
                ),
        ensures
            paint_events@.subrange(0, n0) == old(paint_events)@,
            events_walk_line(paint_events@, n0, s, e, tile_id),
            cells_painted(old_lm, *layer_manager, reported_cells(paint_events@, n0), tile_id, flip_x, flip_y),
        decreases (dx - a) + (dy - b),
    {
        let ghost lm_before = *layer_manager;
        let ghost ev_before = paint_events@;
        paint_single_tile(x as u32, y as u32, tile_id, flip_x, flip_y, layer_manager, paint_events);
        proof {
            let c = (x as u32, y as u32);
            lemma_cells_painted_step(
                old_lm,
                lm_before,
                *layer_manager,
                reported_cells(ev_before, n0),
                c.0,
                c.1,
                tile_id,
                flip_x,
                flip_y,
            );
            let grown = |q: (u32, u32)| reported_cells(ev_before, n0)(q) || q == c;
            assert forall|q: (u32, u32)| #[trigger] grown(q) == reported_cells(paint_events@, n0)(q) by {
                if grown(q) {
                    if q == c {
                        assert(event_cell(paint_events@, ev_before.len() as int) == q);
                    } else {
                        let k = choose|k: int| n0 <= k < ev_before.len() && event_cell(ev_before, k) == q;
                        assert(event_cell(paint_events@, k) == q);
                    }
                }
                if reported_cells(paint_events@, n0)(q) {
                    let k = choose|k: int| n0 <= k < paint_events@.len() && event_cell(paint_events@, k) == q;
                    if k < ev_before.len() {
                        assert(event_cell(ev_before, k) == q);
                    }
                }
            }
            assert(grown =~= reported_cells(paint_events@, n0));
            assert(paint_events@.subrange(0, n0) =~= ev_before.subrange(0, n0));
            assert forall|k: int| n0 <= k < paint_events@.len() implies #[trigger] paint_events@[k] == paint_event(
                paint_events@[k].x,
                paint_events@[k].y,
                tile_id,
            ) by {
                if k < ev_before.len() {
                    assert(paint_events@[k] == ev_before[k]);
                }
            }
            assert forall|k: int| n0 <= k < paint_events@.len() - 1 implies #[trigger] event_cell(paint_events@, k + 1)
                == line_next(s, e, event_cell(paint_events@, k)) by {
                assert(paint_events@[k] == ev_before[k]);
                assert(event_cell(paint_events@, k) == event_cell(ev_before, k));
                if k + 1 < ev_before.len() {
                    assert(paint_events@[k + 1] == ev_before[k + 1]);
                    assert(event_cell(paint_events@, k + 1) == event_cell(ev_before, k + 1));
                } else {
                    assert(event_cell(paint_events@, k + 1) == (x as u32, y as u32));
                }
            }
            if ev_before.len() > n0 {
                assert(paint_events@[n0] == ev_before[n0]);
            }
        }
        let at_end = x == end_x as i64 && y == end_y as i64;
        proof {
            assert(at_end == ((x as u32, y as u32) == e));
            let last = paint_events@.len() - 1;
            assert(event_cell(paint_events@, last) == (x as u32, y as u32));
        }
        if at_end {
            proof {
                let last = paint_events@.len() - 1;
                if ev_before.len() == n0 {
                    assert(event_cell(paint_events@, n0) == s);
                } else {
                    assert(paint_events@[n0] == ev_before[n0]);
                }
                assert forall|k: int| n0 <= k < paint_events@.len() - 1 implies #[trigger] event_cell(paint_events@, k)
                    != e && event_cell(paint_events@, k + 1) == line_next(s, e, event_cell(paint_events@, k)) by {
                    assert(paint_events@[k] == ev_before[k]);
                    assert(event_cell(paint_events@, k) == event_cell(ev_before, k));
                    assert(event_cell(ev_before, k) != e);
                }
            }
            break;
        }
        proof {
            assert forall|k: int| n0 <= k < paint_events@.len() implies #[trigger] event_cell(paint_events@, k) != e by {
                if k < ev_before.len() {
                    assert(paint_events@[k] == ev_before[k]);
                    assert(event_cell(paint_events@, k) == event_cell(ev_before, k));
                    assert(event_cell(ev_before, k) != e);
                }
            }
            // not at the end: the coordinate that reached its end does not move
            assert(a < dx || b < dy);
            if a == dx {
                assert((2 * b + 2) * dx <= (2 * a + 1) * dy) by (nonlinear_arith)
                    requires
                        a == dx,
                        0 <= b < dy,
                        dx >= 0,
                ;
            }
            if b == dy {
                assert((2 * b + 1) * dx >= (2 * a + 2) * dy) by (nonlinear_arith)
                    requires
                        b == dy,
                        0 <= a < dx,
                        dy >= 0,
                ;
            }
            assert(2 * err > -dy <==> (2 * b + 2) * dx > (2 * a + 1) * dy) by (nonlinear_arith)
                requires
                    err == dx - dy - a * dy + b * dx,
            ;
            assert(2 * err < dx <==> (2 * b + 1) * dx < (2 * a + 2) * dy) by (nonlinear_arith)
                requires
                    err == dx - dy - a * dy + b * dx,
            ;
        }
        let e2 = 2 * err;
        let ghost err0 = err;
        if e2 > -dy {
            err = err - dy;
            x = x + sx;
            proof {
                a = a + 1;
            }
        }
        if e2 < dx {
            err = err + dx;
            y = y + sy;
            proof {
                b = b + 1;
            }
        }
        proof {
            assert(err == dx - dy - a * dy + b * dx) by (nonlinear_arith)
                requires
                    err0 == dx - dy - (if e2 > -dy { a - 1 } else { a }) * dy + (if e2 < dx { b - 1 } else { b }) * dx,
                    err == err0 - (if e2 > -dy { dy } else { 0 }) + (if e2 < dx { dx } else { 0 }),
            ;
        }
    }
}

// ---------------------------------------------------------------------------
// Stamp
// ---------------------------------------------------------------------------

/// The cell on which entry `index` of a stamp `w` tiles wide and `h` tiles
/// high lands when the stamp is put at `(x, y)`: entries go row by row, and
/// the first row of the selection goes on top (highest y) of the stamp.
pub open spec fn stamp_cell(x: u32, y: u32, w: u32, h: u32, index: int) -> (int, int) {
    let ox = index % (w as int);
    let oy = index / (w as int);
    let top: int = if h > 0 { h - 1 } else { 0 };
    let y_invert: int = if top > oy { top - oy } else { 0 };
    (x + ox, y + y_invert)
}

/// Whether `c` lies inside the layer bounds, when there are bounds.
pub open spec fn within_bounds(c: (int, int), bounds: Option<(u32, u32)>) -> bool {
    match bounds {
        Some((bw, bh)) => c.0 < bw && c.1 < bh,
        None => true,
    }
}

/// The width and height of the active layer of `lm`, if any.
pub open spec fn active_bounds(lm: LayerManager) -> Option<(u32, u32)> {
    match lm.active_index() {
        Some(i) => Some((lm.layers@[i].metadata.width, lm.layers@[i].metadata.height)),
        None => None,
    }
}

/// The events of painting the stamp entries `ids` at `(x, y)`, in entry
/// order, for the entries that land inside `bounds`.
pub open spec fn stamp_events(
    ids: Seq<u32>,
    x: u32,
    y: u32,
    w: u32,
    h: u32,
    bounds: Option<(u32, u32)>,
) -> Seq<PaintTileEvent>
    decreases ids.len(),
{
    if ids.len() == 0 {
        Seq::empty()
    } else {
        let n = ids.len() - 1;
        let prev = stamp_events(ids.drop_last(), x, y, w, h, bounds);
        let c = stamp_cell(x, y, w, h, n);
        if within_bounds(c, bounds) {
            prev.push(paint_event(c.0 as u32, c.1 as u32, ids[n]))
        } else {
            prev
        }
    }
}

/// The tiles of a layer after painting the stamp entries `ids` at `(x, y)`
/// in entry order, skipping the entries that land outside `bounds`.
pub open spec fn stamp_tiles(
    tiles: Seq<TileData>,
    ids: Seq<u32>,
    x: u32,
    y: u32,
    w: u32,
    h: u32,
    flip_x: bool,
    flip_y: bool,
    bounds: Option<(u32, u32)>,
) -> Seq<TileData>
    decreases ids.len(),
{
    if ids.len() == 0 {
        tiles
    } else {
        let n = ids.len() - 1;
        let prev = stamp_tiles(tiles, ids.drop_last(), x, y, w, h, flip_x, flip_y, bounds);
        let c = stamp_cell(x, y, w, h, n);
        if within_bounds(c, bounds) {
            with_tile(prev, painted_tile(c.0 as u32, c.1 as u32, ids[n], flip_x, flip_y))
        } else {
            prev
        }
    }
}

/// Whether the stamp `ids` can go at `(x, y)`: the entries can be counted
/// in 32 bits and, when there is a stamp to paint, it is at least one tile
/// wide and every entry lands on a cell with 32-bit coordinates.
pub open spec fn stamp_ready(
    x: u32,
    y: u32,
    ids: Seq<u32>,
    dimensions: Option<(u32, u32)>,
    selection_start: Option<(u32, u32)>,
) -> bool {
    &&& ids.len() <= u32::MAX
    &&& dimensions is Some && selection_start is Some && ids.len() > 0 ==> {
        let (w, h) = dimensions->0;
        &&& w > 0
        &&& forall|i: int|
            0 <= i < ids.len() ==> #[trigger] stamp_cell(x, y, w, h, i).0 <= u32::MAX && stamp_cell(
                x,
                y,
                w,
                h,
                i,
            ).1 <= u32::MAX
    }
}

/// `lm1` and `ev1` are `lm0` and `ev0` after painting the stamp `ids` at
/// `(x, y)`: without dimensions or a selection start nothing changes;
/// otherwise the entries that land on the active layer are painted and
/// reported in entry order.
pub open spec fn stamp_painted(
    lm0: LayerManager,
    ev0: Seq<PaintTileEvent>,
    lm1: LayerManager,
    ev1: Seq<PaintTileEvent>,
    x: u32,
    y: u32,
    ids: Seq<u32>,
    dimensions: Option<(u32, u32)>,
    selection_start: Option<(u32, u32)>,
    flip_x: bool,
    flip_y: bool,
) -> bool {
    if dimensions is None || selection_start is None {
        lm1 == lm0 && ev1 == ev0
    } else {
        let (w, h) = dimensions->0;
        let bounds = active_bounds(lm0);
        &&& ev1 == ev0 + stamp_events(ids, x, y, w, h, bounds)
        &&& lm1.active_layer == lm0.active_layer
        &&& lm1.layer_visibility == lm0.layer_visibility
        &&& lm1.next_id == lm0.next_id
        &&& match lm0.active_index() {
            Some(i) => layer_tiles_replaced(
                lm0.layers@,
                lm1.layers@,
                i,
                stamp_tiles(lm0.layers@[i].tiles@, ids, x, y, w, h, flip_x, flip_y, bounds),
            ),
            None => lm1.layers == lm0.layers,
        }
    }
}

/// Paints a multi-tile stamp: the selected tile ids, `dimensions` wide and
/// high, go row by row from `(x, y)`, the first selected row on top; entries
/// that land outside the active layer are skipped. Nothing happens without
/// dimensions or a selection start.
pub fn paint_stamp(
    x: u32,
    y: u32,
    selected_tiles: &Vec<u32>,
    dimensions: Option<(u32, u32)>,
    selection_start: Option<(u32, u32)>,
    flip_x: bool,
    flip_y: bool,
    layer_manager: &mut LayerManager,
    paint_events: &mut Vec<PaintTileEvent>,
)
    requires
        stamp_ready(x, y, selected_tiles@, dimensions, selection_start),
    ensures
        stamp_painted(
            *old(layer_manager),
            old(paint_events)@,
            *final(layer_manager),
            final(paint_events)@,
            x,
            y,
            selected_tiles@,
            dimensions,
            selection_start,
            flip_x,
            flip_y,
        ),
{
    let (stamp_width, stamp_height) = match dimensions {
        Some(d) => d,
        None => {
            return;
        },
    };
    if selection_start.is_none() {
        return;
    }
    let ghost old_lm = *layer_manager;
    let ghost bounds = active_bounds(old_lm);
    let ghost ids = selected_tiles@;
    let bounds_now: Option<(u32, u32)> = match layer_manager.get_active_layer() {
        Some(layer) => Some((layer.metadata.width, layer.metadata.height)),
        None => None,
    };
    let mut index: usize = 0;
    proof {
        assert(ids.take(0) =~= Seq::<u32>::empty());
        assert(paint_events@ =~= old(paint_events)@ + stamp_events(ids.take(0), x, y, stamp_width, stamp_height, bounds));
    }
    while index < selected_tiles.len()
        invariant
            old_lm == *old(layer_manager),
            ids == selected_tiles@,
            bounds == active_bounds(old_lm),
            bounds_now == bounds,
            ids.len() <= u32::MAX,
            0 <= index <= ids.len(),
            ids.len() > 0 ==> stamp_width > 0,
            forall|i: int|
                0 <= i < ids.len() ==> #[trigger] stamp_cell(x, y, stamp_width, stamp_height, i).0 <= u32::MAX
                    && stamp_cell(x, y, stamp_width, stamp_height, i).1 <= u32::MAX,
            paint_events@ == old(paint_events)@ + stamp_events(
                ids.take(index as int),
                x,
                y,
                stamp_width,
                stamp_height,
                bounds,
            ),
            layer_manager.active_layer == old_lm.active_layer,
            layer_manager.layer_visibility == old_lm.layer_visibility,
            layer_manager.next_id == old_lm.next_id,
            match old_lm.active_index() {
                Some(i) => layer_tiles_replaced(
                    old_lm.layers@,
                    layer_manager.layers@,
                    i,
                    stamp_tiles(
                        old_lm.layers@[i].tiles@,
                        ids.take(index as int),
                        x,
                        y,
                        stamp_width,
                        stamp_height,
                        flip_x,
                        flip_y,
                        bounds,
                    ),
                ),
                None => layer_manager.layers == old_lm.layers,
            },
        decreases ids.len() - index,
    {
        let tile_id = selected_tiles[index];
        let idx = index as u32;
        assert(idx as int == index as int);
        assert(stamp_cell(x, y, stamp_width, stamp_height, index as int).0 <= u32::MAX);
        let offset_x = idx % stamp_width;
        let offset_y = idx / stamp_width;
        let world_x = x + offset_x;
        let top = if stamp_height > 0 { stamp_height - 1 } else { 0 };
        let y_invert = if top > offset_y { top - offset_y } else { 0 };
        let world_y = y + y_invert;
        let ghost c = stamp_cell(x, y, stamp_width, stamp_height, index as int);
        assert(c == (world_x as int, world_y as int));
        proof {
            let next = ids.take(index + 1);
            assert(next.drop_last() =~= ids.take(index as int));
            assert(next.len() - 1 == index);
            assert(next[index as int] == tile_id);
        }
        let inside = match bounds_now {
            Some((bw, bh)) => world_x < bw && world_y < bh,
            None => true,
        };
        if inside {
            let ghost lm_before = *layer_manager;
            paint_single_tile(world_x, world_y, tile_id, flip_x, flip_y, layer_manager, paint_events);
            proof {
                if let Some(i) = old_lm.active_index() {
                    assert(lm_before.active_index() == Some(i));
                    assert forall|j: int| 0 <= j < old_lm.layers@.len() && j != i implies #[trigger] layer_manager.layers@[j]
                        == old_lm.layers@[j] by {
                        assert(layer_manager.layers@[j] == lm_before.layers@[j]);
                    }
                }
            }
        }
        index = index + 1;
    }
    proof {
        assert(ids.take(ids.len() as int) =~= ids);
    }
}

// ---------------------------------------------------------------------------
// Bucket fill
// ---------------------------------------------------------------------------

/// The tile id found on cell `c` of `tiles`, if any.
pub open spec fn tile_id_at(tiles: Seq<TileData>, c: (u32, u32)) -> Option<u32> {
    match tile_at(tiles, c.0, c.1) {
        Some(t) => Some(t.tile_id),
        None => None,
    }
}

/// The fill spreads from `from` to `to`: `to` is a horizontal or vertical
/// neighbour of `from` that does not go below 0 nor past the layer size.
pub open spec fn fill_step(from: (u32, u32), to: (u32, u32), width: u32, height: u32) -> bool {
    ||| to.1 == from.1 && from.0 > 0 && to.0 == from.0 - 1
    ||| to.1 == from.1 && from.0 + 1 < width && to.0 == from.0 + 1
    ||| to.0 == from.0 && from.1 > 0 && to.1 == from.1 - 1
    ||| to.0 == from.0 && from.1 + 1 < height && to.1 == from.1 + 1
}

/// `p` is a chain of fill steps from `start` through cells whose tile id is
/// `target`.
pub open spec fn fill_path(
    tiles: Seq<TileData>,
    start: (u32, u32),
    target: Option<u32>,
    width: u32,
    height: u32,
    p: Seq<(u32, u32)>,
) -> bool {
    &&& p.len() > 0
    &&& p[0] == start
    &&& forall|i: int| 0 <= i < p.len() ==> tile_id_at(tiles, #[trigger] p[i]) == target
    &&& forall|i: int| 0 <= i < p.len() - 1 ==> #[trigger] fill_step(p[i], p[i + 1], width, height)
}

/// The cells a bucket fill started on `start` repaints: those joined to
/// `start` by fill steps through cells holding the same tile id as `start`
/// (or, like `start`, no tile).
pub open spec fn in_fill_region(
    tiles: Seq<TileData>,
    start: (u32, u32),
    width: u32,
    height: u32,
    c: (u32, u32),
) -> bool {
    exists|p: Seq<(u32, u32)>|
        #[trigger] fill_path(tiles, start, tile_id_at(tiles, start), width, height, p) && p.last() == c
}

/// Key of a cell in the set of visited cells.
pub open spec fn cell_key(c: (u32, u32)) -> u64 {
    (c.0 as int * 0x1_0000_0000 + c.1 as int) as u64
}

fn key_of(x: u32, y: u32) -> (k: u64)
    ensures
        k == cell_key((x, y)),
{
    (x as u64) * 0x1_0000_0000u64 + (y as u64)
}

proof fn lemma_cell_key_injective(a: (u32, u32), b: (u32, u32))
    ensures
        cell_key(a) == cell_key(b) ==> a == b,
{
}

proof fn lemma_u64_set_len(s: Set<u64>)
    requires
        s.finite(),
    ensures
        s.len() <= u64::MAX as int + 1,
{
    let all = Set::<u64>::range(0, u64::MAX).insert(u64::MAX);
    vstd::set_lib::range_set_properties::<u64>(0, u64::MAX);
    assert(s.subset_of(all));
    vstd::set_lib::lemma_len_subset(s, all);
}

/// Extending a fill path that ends on a cell of the region by one more step
/// onto a cell with the target tile id stays in the region.
proof fn lemma_region_extend(
    tiles: Seq<TileData>,
    start: (u32, u32),
    width: u32,
    height: u32,
    v: (u32, u32),
    c: (u32, u32),
)
    requires
        in_fill_region(tiles, start, width, height, v),
        fill_step(v, c, width, height),
        tile_id_at(tiles, c) == tile_id_at(tiles, start),
    ensures
        in_fill_region(tiles, start, width, height, c),
{
    let target = tile_id_at(tiles, start);
    let p = choose|p: Seq<(u32, u32)>| #[trigger] fill_path(tiles, start, target, width, height, p) && p.last() == v;
    let q = p.push(c);
    assert forall|i: int| 0 <= i < q.len() implies tile_id_at(tiles, #[trigger] q[i]) == target by {
        if i < p.len() {
            assert(q[i] == p[i]);
        }
    }
    assert forall|i: int| 0 <= i < q.len() - 1 implies #[trigger] fill_step(q[i], q[i + 1], width, height) by {
        if i < p.len() - 1 {
            assert(q[i] == p[i] && q[i + 1] == p[i + 1]);
        } else {
            assert(q[i] == v && q[i + 1] == c);
        }
    }
    assert(fill_path(tiles, start, target, width, height, q) && q.last() == c);
}

proof fn lemma_region_start(tiles: Seq<TileData>, start: (u32, u32), width: u32, height: u32)
    ensures
        in_fill_region(tiles, start, width, height, start),
{
    let p = seq![start];
    assert(fill_path(tiles, start, tile_id_at(tiles, start), width, height, p) && p.last() == start);
}

/// Once the fill has run out of cells to look at, every cell of the region
/// has been visited.
proof fn lemma_region_covered(
    tiles: Seq<TileData>,
    start: (u32, u32),
    width: u32,
    height: u32,
    visited: Set<u64>,
    c: (u32, u32),
)
    requires
        visited.contains(cell_key(start)),
        forall|v: (u32, u32), d: (u32, u32)|
            visited.contains(cell_key(v)) && tile_id_at(tiles, v) == tile_id_at(tiles, start)
                && #[trigger] fill_step(v, d, width, height) ==> visited.contains(#[trigger] cell_key(d)),
        in_fill_region(tiles, start, width, height, c),
    ensures
        visited.contains(cell_key(c)),
{
    let target = tile_id_at(tiles, start);
    let p = choose|p: Seq<(u32, u32)>| #[trigger] fill_path(tiles, start, target, width, height, p) && p.last() == c;
    lemma_path_visited(tiles, start, width, height, visited, p, p.len() - 1);
}

proof fn lemma_path_visited(
    tiles: Seq<TileData>,
    start: (u32, u32),
    width: u32,
    height: u32,
    visited: Set<u64>,
    p: Seq<(u32, u32)>,
    i: int,
)
    requires
        visited.contains(cell_key(start)),
        forall|v: (u32, u32), d: (u32, u32)|
            visited.contains(cell_key(v)) && tile_id_at(tiles, v) == tile_id_at(tiles, start)
                && #[trigger] fill_step(v, d, width, height) ==> visited.contains(#[trigger] cell_key(d)),
        fill_path(tiles, start, tile_id_at(tiles, start), width, height, p),
        0 <= i < p.len(),
    ensures
        visited.contains(cell_key(p[i])),
    decreases i,
{
    if i > 0 {
        lemma_path_visited(tiles, start, width, height, visited, p, i - 1);
        let k = i - 1;
        assert(fill_step(p[k], p[k + 1], width, height));
        assert(tile_id_at(tiles, p[k]) == tile_id_at(tiles, start));
    }
}

/// Every cell of a fill region holds the start cell's tile id.
proof fn lemma_region_matches(tiles: Seq<TileData>, start: (u32, u32), width: u32, height: u32, c: (u32, u32))
    requires
        in_fill_region(tiles, start, width, height, c),
    ensures
        tile_id_at(tiles, c) == tile_id_at(tiles, start),
{
    let target = tile_id_at(tiles, start);
    let p = choose|p: Seq<(u32, u32)>| #[trigger] fill_path(tiles, start, target, width, height, p) && p.last() == c;
    assert(p[p.len() - 1] == c);
}

/// Pushes the cells a fill spreads to from `(x, y)` onto `stack`.
fn push_neighbors(stack: &mut Vec<(u32, u32)>, x: u32, y: u32, width: u32, height: u32)
    requires
        width > 0,
        height > 0,
    ensures
        final(stack)@.len() >= old(stack)@.len(),
        final(stack)@.subrange(0, old(stack)@.len() as int) == old(stack)@,
        forall|j: int| old(stack)@.len() <= j < final(stack)@.len() ==> fill_step((x, y), #[trigger] final(stack)@[j], width, height),
        forall|d: (u32, u32)| #[trigger] fill_step((x, y), d, width, height) ==> exists|j: int|
            old(stack)@.len() <= j < final(stack)@.len() && final(stack)@[j] == d,
{
    let ghost s0 = stack@;
    if x > 0 {
        stack.push((x - 1, y));
    }
    let ghost s1 = stack@;
    if x < width - 1 {
        stack.push((x + 1, y));
    }
    let ghost s2 = stack@;
    if y > 0 {
        stack.push((x, y - 1));
    }
    let ghost s3 = stack@;
    if y < height - 1 {
        stack.push((x, y + 1));
    }
    proof {
        let n = s0.len() as int;
        assert(stack@.subrange(0, n) =~= s0);
        assert forall|j: int| n <= j < stack@.len() implies fill_step((x, y), #[trigger] stack@[j], width, height) by {
            if j < s1.len() {
                assert(stack@[j] == s1[j]);
            } else if j < s2.len() {
                assert(stack@[j] == s2[j]);
            } else if j < s3.len() {
                assert(stack@[j] == s3[j]);
            }
        }
        assert forall|d: (u32, u32)| #[trigger] fill_step((x, y), d, width, height) implies exists|j: int|
            n <= j < stack@.len() && stack@[j] == d by {
            if d.1 == y && x > 0 && d.0 == x - 1 {
                assert(stack@[n] == d);
            } else if d.1 == y && x + 1 < width && d.0 == x + 1 {
                assert(stack@[s1.len() as int] == d);
            } else if d.0 == x && y > 0 && d.1 == y - 1 {
                assert(stack@[s2.len() as int] == d);
            } else {
                assert(stack@[s3.len() as int] == d);
            }
        }
    }
}

/// The new events of `events` past `from` report the cells of `region`,
/// each exactly once, with tile id `tile_id`.
pub open spec fn events_cover(
    events: Seq<PaintTileEvent>,
    from: int,
    tile_id: u32,
    region: spec_fn((u32, u32)) -> bool,
) -> bool {
    &&& 0 <= from <= events.len()
    &&& forall|k: int| from <= k < events.len() ==> #[trigger] events[k] == paint_event(events[k].x, events[k].y, tile_id)
        && region((events[k].x, events[k].y))
    &&& forall|c: (u32, u32)| #[trigger] region(c) ==> exists|k: int| from <= k < events.len()
        && (#[trigger] events[k]).x == c.0 && events[k].y == c.1
    &&& forall|k1: int, k2: int| from <= k1 < k2 < events.len() ==> !((#[trigger] events[k1]).x == (#[trigger] events[k2]).x && events[k1].y == events[k2].y)
}

/// The region of a fill on the active layer of `lm` as a predicate on cells.
pub open spec fn fill_region_of(lm: LayerManager, start: (u32, u32)) -> spec_fn((u32, u32)) -> bool {
    |c: (u32, u32)| match lm.active_index() {
        Some(i) => in_fill_region(
            lm.layers@[i].tiles@,
            start,
            lm.layers@[i].metadata.width,
            lm.layers@[i].metadata.height,
            c,
        ),
        None => false,
    }
}

/// Whether a fill from `start` on the active layer of `lm` with `tile_id`
/// changes anything: there is an active layer and the start cell does not
/// already hold `tile_id`.
pub open spec fn fill_applies(lm: LayerManager, start: (u32, u32), tile_id: u32) -> bool {
    match lm.active_index() {
        Some(i) => tile_id_at(lm.layers@[i].tiles@, start) != Some(tile_id),
        None => false,
    }
}

/// Whether a fill from `start` can run: when it changes anything, the
/// active layer is at least one cell wide and high.
pub open spec fn fill_ready(lm: LayerManager, start: (u32, u32), tile_id: u32) -> bool {
    fill_applies(lm, start, tile_id) ==> {
        let i = lm.active_index()->0;
        lm.layers@[i].metadata.width > 0 && lm.layers@[i].metadata.height > 0
    }
}

/// `lm1` and `ev1` are `lm0` and `ev0` after a bucket fill from `start`:
/// when the fill applies, exactly the cells of its region on the active
/// layer hold the tile and the new events report each of them once;
/// otherwise nothing changes.
pub open spec fn fill_painted(
    lm0: LayerManager,
    ev0: Seq<PaintTileEvent>,
    lm1: LayerManager,
    ev1: Seq<PaintTileEvent>,
    start: (u32, u32),
    tile_id: u32,
    flip_x: bool,
    flip_y: bool,
) -> bool {
    if !fill_applies(lm0, start, tile_id) {
        lm1 == lm0 && ev1 == ev0
    } else {
        let i = lm0.active_index()->0;
        let old_tiles = lm0.layers@[i].tiles@;
        let width = lm0.layers@[i].metadata.width;
        let height = lm0.layers@[i].metadata.height;
        let new_tiles = lm1.layers@[i].tiles@;
        &&& lm1.active_layer == lm0.active_layer
        &&& lm1.layer_visibility == lm0.layer_visibility
        &&& lm1.next_id == lm0.next_id
        &&& layer_tiles_replaced(lm0.layers@, lm1.layers@, i, new_tiles)
        &&& forall|x: u32, y: u32| #[trigger] tile_at(new_tiles, x, y) == if in_fill_region(
            old_tiles,
            start,
            width,
            height,
            (x, y),
        ) {
            Some(painted_tile(x, y, tile_id, flip_x, flip_y))
        } else {
            tile_at(old_tiles, x, y)
        }
        &&& ev1.subrange(0, ev0.len() as int) == ev0
        &&& events_cover(ev1, ev0.len() as int, tile_id, fill_region_of(lm0, start))
    }
}

/// Bucket fill: repaints with `tile_id` every cell of the active layer that
/// is joined to the start cell through horizontal and vertical neighbours
/// holding the start cell's tile id (or no tile, when the start cell is
/// empty). Nothing happens when the start cell already holds `tile_id` or
/// no layer is active. Each repainted cell is reported once.
pub fn bucket_fill(
    start_x: u32,
    start_y: u32,
    tile_id: u32,
    flip_x: bool,
    flip_y: bool,
    layer_manager: &mut LayerManager,
    paint_events: &mut Vec<PaintTileEvent>,
)
    requires
        fill_ready(*old(layer_manager), (start_x, start_y), tile_id),
    ensures
        fill_painted(
            *old(layer_manager),
            old(paint_events)@,
            *final(layer_manager),
            final(paint_events)@,
            (start_x, start_y),
            tile_id,
            flip_x,
            flip_y,
        ),
{
    let ghost old_lm = *layer_manager;
    let ghost start = (start_x, start_y);
    let target_tile_id: Option<u32> = match layer_manager.get_tile_at(start_x, start_y) {
        Some(t) => Some(t.tile_id),
        None => None,
    };
    if let Some(t) = target_tile_id {
        if t == tile_id {
            return;
        }
    }
    let (width, height) = match layer_manager.get_active_layer() {
        Some(layer) => (layer.metadata.width, layer.metadata.height),
        None => {
            return;
        },
    };
    let ghost ai = old_lm.active_index()->0;
    let ghost t0 = old_lm.layers@[ai].tiles@;
    let ghost n0 = paint_events@.len() as int;
    let ghost region = fill_region_of(old_lm, start);
    assert(target_tile_id == tile_id_at(t0, start));
    assert(layer_tiles_replaced(old_lm.layers@, layer_manager.layers@, ai, t0));

    let mut stack: Vec<(u32, u32)> = Vec::new();
    stack.push((start_x, start_y));
    let mut visited: HashSet<u64> = HashSet::new();
    assert(stack@[0] == start);
    assert(paint_events@.subrange(0, n0) =~= old(paint_events)@);

    while stack.len() > 0
        invariant
            old_lm == *old(layer_manager),
            fill_applies(old_lm, start, tile_id),
            start == (start_x, start_y),
            ai == old_lm.active_index()->0,
            t0 == old_lm.layers@[ai].tiles@,
            width == old_lm.layers@[ai].metadata.width,
            height == old_lm.layers@[ai].metadata.height,
            width > 0 && height > 0,
            target_tile_id == tile_id_at(t0, start),
            n0 == old(paint_events)@.len(),
            region == fill_region_of(old_lm, start),
            layer_manager.active_layer == old_lm.active_layer,
            layer_manager.layer_visibility == old_lm.layer_visibility,
            layer_manager.next_id == old_lm.next_id,
            layer_tiles_replaced(old_lm.layers@, layer_manager.layers@, ai, layer_manager.layers@[ai].tiles@),
            visited@.finite(),
            // the grid so far: visited cells of the region are repainted
            forall|x: u32, y: u32| #[trigger] tile_at(layer_manager.layers@[ai].tiles@, x, y) == if visited@.contains(
                cell_key((x, y)),
            ) && tile_id_at(t0, (x, y)) == target_tile_id {
                Some(painted_tile(x, y, tile_id, flip_x, flip_y))
            } else {
                tile_at(t0, x, y)
            },
            // repainted cells belong to the region
            forall|c: (u32, u32)|
                visited@.contains(#[trigger] cell_key(c)) && tile_id_at(t0, c) == target_tile_id ==> in_fill_region(
                    t0,
                    start,
                    width,
                    height,
                    c,
                ),
            // cells waiting on the stack are the start or next to the region
            forall|j: int|
                0 <= j < stack@.len() ==> #[trigger] stack@[j] == start || exists|v: (u32, u32)|
                    in_fill_region(t0, start, width, height, v) && #[trigger] fill_step(v, stack@[j], width, height),
            // every neighbour of a repainted cell is visited or waiting
            forall|v: (u32, u32), d: (u32, u32)|
                visited@.contains(cell_key(v)) && tile_id_at(t0, v) == target_tile_id
                    && #[trigger] fill_step(v, d, width, height) ==> visited@.contains(#[trigger] cell_key(d))
                    || stack@.contains(d),
            visited@.contains(cell_key(start)) || stack@.contains(start),
            // events so far: one per repainted cell
            paint_events@.subrange(0, n0) == old(paint_events)@,
            events_cover(
                paint_events@,
                n0,
                tile_id,
                |c: (u32, u32)| visited@.contains(cell_key(c)) && tile_id_at(t0, c) == target_tile_id,
            ),
        decreases u64::MAX as int + 1 - visited@.len(), stack@.len(),
    {
        proof {
            lemma_u64_set_len(visited@);
        }
        let ghost stack_before = stack@;
        let ghost visited_before = visited@;
        let ghost tiles_before = layer_manager.layers@[ai].tiles@;
        let ghost events_before = paint_events@;
        let (x, y) = stack.pop().unwrap();
        assert(stack_before == stack@.push((x, y)));
        let key = key_of(x, y);
        if visited.contains(&key) {
            assert forall|v: (u32, u32), d: (u32, u32)|
                visited@.contains(cell_key(v)) && tile_id_at(t0, v) == target_tile_id
                    && #[trigger] fill_step(v, d, width, height) implies visited@.contains(#[trigger] cell_key(d))
                    || stack@.contains(d) by {
                if !visited@.contains(cell_key(d)) {
                    assert(stack_before.contains(d));
                    let j = choose|j: int| 0 <= j < stack_before.len() && stack_before[j] == d;
                    if j < stack@.len() {
                        assert(stack@[j] == d);
                    } else {
                        lemma_cell_key_injective(d, (x, y));
                    }
                }
            }
            assert forall|j: int| 0 <= j < stack@.len() implies #[trigger] stack@[j] == start || exists|v: (u32, u32)|
                in_fill_region(t0, start, width, height, v) && #[trigger] fill_step(v, stack@[j], width, height) by {
                assert(stack@[j] == stack_before[j]);
            }
            proof {
                if !visited@.contains(cell_key(start)) {
                    let j = choose|j: int| 0 <= j < stack_before.len() && stack_before[j] == start;
                    if j < stack@.len() {
                        assert(stack@[j] == start);
                    } else {
                        lemma_cell_key_injective(start, (x, y));
                    }
                }
            }
            continue;
        }
        visited.insert(key);
        proof {
            lemma_u64_set_len(visited@);
        }
        let current_tile_id: Option<u32> = match layer_manager.get_tile_at(x, y) {
            Some(t) => Some(t.tile_id),
            None => None,
        };
        assert(tile_at(tiles_before, x, y) == tile_at(t0, x, y));
        assert(current_tile_id == tile_id_at(t0, (x, y)));
        let same = match (current_tile_id, target_tile_id) {
            (Some(a), Some(b)) => a == b,
            (None, None) => true,
            _ => false,
        };
        assert(same == (current_tile_id == target_tile_id));
        if !same {
            assert forall|x2: u32, y2: u32| #[trigger] tile_at(layer_manager.layers@[ai].tiles@, x2, y2) == if visited@.contains(
                cell_key((x2, y2)),
            ) && tile_id_at(t0, (x2, y2)) == target_tile_id {
                Some(painted_tile(x2, y2, tile_id, flip_x, flip_y))
            } else {
                tile_at(t0, x2, y2)
            } by {
                if visited@.contains(cell_key((x2, y2))) && !visited_before.contains(cell_key((x2, y2))) {
                    lemma_cell_key_injective((x2, y2), (x, y));
                }
            }
            assert forall|c: (u32, u32)|
                visited@.contains(#[trigger] cell_key(c)) && tile_id_at(t0, c) == target_tile_id implies in_fill_region(
                t0,
                start,
                width,
                height,
                c,
            ) by {
                if !visited_before.contains(cell_key(c)) {
                    lemma_cell_key_injective(c, (x, y));
                }
            }
            assert forall|v: (u32, u32), d: (u32, u32)|
                visited@.contains(cell_key(v)) && tile_id_at(t0, v) == target_tile_id
                    && #[trigger] fill_step(v, d, width, height) implies visited@.contains(#[trigger] cell_key(d))
                    || stack@.contains(d) by {
                if !visited_before.contains(cell_key(v)) {
                    lemma_cell_key_injective(v, (x, y));
                }
                if !visited@.contains(cell_key(d)) {
                    assert(stack_before.contains(d));
                    let j = choose|j: int| 0 <= j < stack_before.len() && stack_before[j] == d;
                    if j < stack@.len() {
                        assert(stack@[j] == d);
                    }
                }
            }
            assert forall|j: int| 0 <= j < stack@.len() implies #[trigger] stack@[j] == start || exists|v: (u32, u32)|
                in_fill_region(t0, start, width, height, v) && #[trigger] fill_step(v, stack@[j], width, height) by {
                assert(stack@[j] == stack_before[j]);
            }
            proof {
                if !visited@.contains(cell_key(start)) {
                    let j = choose|j: int| 0 <= j < stack_before.len() && stack_before[j] == start;
                    if j < stack@.len() {
                        assert(stack@[j] == start);
                    }
                }
            }
            proof {
                let newp = |c: (u32, u32)| visited@.contains(cell_key(c)) && tile_id_at(t0, c) == target_tile_id;
                let oldp = |c: (u32, u32)| visited_before.contains(cell_key(c)) && tile_id_at(t0, c) == target_tile_id;
                assert forall|c: (u32, u32)| #[trigger] newp(c) == oldp(c) by {
                    if c != (x, y) {
                        lemma_cell_key_injective(c, (x, y));
                    }
                }
                assert(newp =~= oldp);
            }
            continue;
        }
        // (x, y) holds the target id: it belongs to the region
        proof {
            if (x, y) == start {
                lemma_region_start(t0, start, width, height);
            } else {
                let j = stack_before.len() - 1;
                assert(stack_before[j] == (x, y));
                let v = choose|v: (u32, u32)| in_fill_region(t0, start, width, height, v) && #[trigger] fill_step(v, stack_before[j], width, height);
                lemma_region_extend(t0, start, width, height, v, (x, y));
            }
        }
        paint_single_tile(x, y, tile_id, flip_x, flip_y, layer_manager, paint_events);
        proof {
            assert forall|x2: u32, y2: u32| #[trigger] tile_at(layer_manager.layers@[ai].tiles@, x2, y2) == if visited@.contains(
                cell_key((x2, y2)),
            ) && tile_id_at(t0, (x2, y2)) == target_tile_id {
                Some(painted_tile(x2, y2, tile_id, flip_x, flip_y))
            } else {
                tile_at(t0, x2, y2)
            } by {
                lemma_tile_at_with_tile(tiles_before, painted_tile(x, y, tile_id, flip_x, flip_y), x2, y2);
                if (x2, y2) != (x, y) {
                    lemma_cell_key_injective((x2, y2), (x, y));
                }
            }
        }
        let ghost stack_mid = stack@;
        push_neighbors(&mut stack, x, y, width, height);
        proof {
            let m = stack_mid.len() as int;
            assert(in_fill_region(t0, start, width, height, (x, y)));
            assert forall|j: int| 0 <= j < stack@.len() implies #[trigger] stack@[j] == start || exists|v: (u32, u32)|
                in_fill_region(t0, start, width, height, v) && #[trigger] fill_step(v, stack@[j], width, height) by {
                if j < m {
                    assert(stack@.subrange(0, m)[j] == stack@[j]);
                    assert(stack@[j] == stack_before[j]);
                } else {
                    assert(fill_step((x, y), stack@[j], width, height));
                }
            }
            assert forall|v: (u32, u32), d: (u32, u32)|
                visited@.contains(cell_key(v)) && tile_id_at(t0, v) == target_tile_id
                    && #[trigger] fill_step(v, d, width, height) implies visited@.contains(#[trigger] cell_key(d))
                    || stack@.contains(d) by {
                if v == (x, y) {
                    let j = choose|j: int| m <= j < stack@.len() && stack@[j] == d;
                    assert(stack@.contains(d));
                } else {
                    lemma_cell_key_injective(v, (x, y));
                    if !visited@.contains(cell_key(d)) {
                        assert(stack_before.contains(d));
                        let j = choose|j: int| 0 <= j < stack_before.len() && stack_before[j] == d;
                        if j < m {
                            assert(stack@.subrange(0, m)[j] == stack@[j]);
                            assert(stack@[j] == d);
                        }
                    }
                }
            }
            if !visited@.contains(cell_key(start)) {
                let j = choose|j: int| 0 <= j < stack_before.len() && stack_before[j] == start;
                if j < m {
                    assert(stack@.subrange(0, m)[j] == stack@[j]);
                    assert(stack@[j] == start);
                }
            }
            // repainted cells belong to the region
            assert forall|c: (u32, u32)|
                visited@.contains(#[trigger] cell_key(c)) && tile_id_at(t0, c) == target_tile_id implies in_fill_region(
                t0,
                start,
                width,
                height,
                c,
            ) by {
                if c != (x, y) {
                    lemma_cell_key_injective(c, (x, y));
                }
            }
            // events
            let k_new = events_before.len() as int;
            assert(paint_events@ == events_before.push(paint_event(x, y, tile_id)));
            assert(paint_events@.subrange(0, n0) =~= events_before.subrange(0, n0));
            let newp = |c: (u32, u32)| visited@.contains(cell_key(c)) && tile_id_at(t0, c) == target_tile_id;
            let oldp = |c: (u32, u32)| visited_before.contains(cell_key(c)) && tile_id_at(t0, c) == target_tile_id;
            assert forall|k: int| n0 <= k < paint_events@.len() implies #[trigger] paint_events@[k] == paint_event(
                paint_events@[k].x,
                paint_events@[k].y,
                tile_id,
            ) && newp((paint_events@[k].x, paint_events@[k].y)) by {
                if k < k_new {
                    assert(paint_events@[k] == events_before[k]);
                    assert(oldp((events_before[k].x, events_before[k].y)));
                }
            }
            assert forall|c: (u32, u32)| #[trigger] newp(c) implies exists|k: int| n0 <= k < paint_events@.len()
                && (#[trigger] paint_events@[k]).x == c.0 && paint_events@[k].y == c.1 by {
                if c == (x, y) {
                    assert(paint_events@[k_new].x == c.0 && paint_events@[k_new].y == c.1);
                } else {
                    lemma_cell_key_injective(c, (x, y));
                    assert(oldp(c));
                    let k = choose|k: int| n0 <= k < events_before.len() && (#[trigger] events_before[k]).x == c.0
                        && events_before[k].y == c.1;
                    assert(paint_events@[k] == events_before[k]);
                }
            }
            assert forall|k1: int, k2: int| n0 <= k1 < k2 < paint_events@.len() implies !((
            #[trigger] paint_events@[k1]).x == (#[trigger] paint_events@[k2]).x && paint_events@[k1].y
                == paint_events@[k2].y) by {
                assert(paint_events@[k1] == events_before[k1]);
                if k2 == k_new {
                    assert(oldp((events_before[k1].x, events_before[k1].y)));
                    lemma_cell_key_injective((events_before[k1].x, events_before[k1].y), (x, y));
                } else {
                    assert(paint_events@[k2] == events_before[k2]);
                }
            }
        }
    }
    proof {
        let ai = ai;
        assert forall|v: (u32, u32), d: (u32, u32)|
            visited@.contains(cell_key(v)) && tile_id_at(t0, v) == tile_id_at(t0, start)
                && #[trigger] fill_step(v, d, width, height) implies visited@.contains(#[trigger] cell_key(d)) by {
            assert(!stack@.contains(d));
        }
        assert(visited@.contains(cell_key(start))) by {
            assert(!stack@.contains(start));
        }
        let covered = |c: (u32, u32)| visited@.contains(cell_key(c)) && tile_id_at(t0, c) == target_tile_id;
        assert forall|c: (u32, u32)| #[trigger] covered(c) == region(c) by {
            if in_fill_region(t0, start, width, height, c) {
                lemma_region_covered(t0, start, width, height, visited@, c);
                lemma_region_matches(t0, start, width, height, c);
            }
        }
        assert(covered =~= region);
        let new_tiles = layer_manager.layers@[ai].tiles@;
        assert forall|x: u32, y: u32| #[trigger] tile_at(new_tiles, x, y) == if in_fill_region(
            t0,
            start,
            width,
            height,
            (x, y),
        ) {
            Some(painted_tile(x, y, tile_id, flip_x, flip_y))
        } else {
            tile_at(t0, x, y)
        } by {
            assert(covered((x, y)) == region((x, y)));
        }
    }
}

} // verus!
