//! The tile tool: what one frame of mouse and keyboard input does on the
//! active layer while the brush is the current tool, and the eyedropper that
//! picks a painted tile back up.

use vstd::prelude::*;
use crate::editor_state::{EditorTool, PaintMode};
use crate::layer_manager::{tile_at, tile_removed, LayerManager, TileData};
use crate::tile_painter::{
    active_bounds, bucket_fill, fill_painted, line_coord_limit, line_painted, paint_line,
    paint_rectangle, paint_single_tile, paint_stamp, rectangle_painted, single_painted,
    stamp_painted, stamp_ready, PaintTileEvent,
};

verus! {

/// State of the tile brush between frames.
#[derive(Clone, Copy, Debug)]
pub struct TilePainter {
    pub mode: PaintMode,
    pub flip_x: bool,
    pub flip_y: bool,
    /// Cell where the rectangle or line being dragged started.
    pub drag_start: Option<(u32, u32)>,
    /// Cell under the cursor, for the preview.
    pub current_pos: Option<(u32, u32)>,
}

impl TilePainter {
    /// A drag only ever starts on a cell of a layer, whose coordinates are
    /// non-negative 32-bit signed numbers.
    pub open spec fn wf(&self) -> bool {
        match self.drag_start {
            Some(c) => c.0 <= line_coord_limit() && c.1 <= line_coord_limit(),
            None => true,
        }
    }
}

impl Default for TilePainter {
    fn default() -> (r: Self)
        ensures
            r.mode == PaintMode::Single,
            !r.flip_x,
            !r.flip_y,
            r.drag_start is None,
            r.current_pos is None,
    {
        TilePainter { mode: PaintMode::Single, flip_x: false, flip_y: false, drag_start: None, current_pos: None }
    }
}

/// What the tile brush reads in one frame.
#[derive(Clone, Copy, Debug)]
pub struct PaintInput {
    /// The editor's current tool.
    pub tool: EditorTool,
    /// Whether the pointer is over a panel.
    pub pointer_over_ui: bool,
    /// The grid cell under the cursor on the active layer's grid, when the
    /// cursor has a world position.
    pub cursor_cell: Option<(i32, i32)>,
    /// The tile selected in the tileset panel.
    pub selected_tile: Option<u32>,
    pub left_pressed: bool,
    pub left_just_pressed: bool,
    pub left_just_released: bool,
    pub right_pressed: bool,
    /// The key that mirrors the brush horizontally was just pressed.
    pub flip_x_key: bool,
    /// The key that mirrors the brush vertically was just pressed.
    pub flip_y_key: bool,
}

/// One painting operation of a frame.
#[derive(Clone, Copy, Debug)]
pub enum PaintAction {
    Tile { x: u32, y: u32, tile_id: u32, flip_x: bool, flip_y: bool },
    Stamp { x: u32, y: u32, flip_x: bool, flip_y: bool },
    Fill { x: u32, y: u32, tile_id: u32, flip_x: bool, flip_y: bool },
    Rectangle { start: (u32, u32), end: (u32, u32), tile_id: u32, flip_x: bool, flip_y: bool },
    Line { start: (u32, u32), end: (u32, u32), tile_id: u32, flip_x: bool, flip_y: bool },
    Erase { x: u32, y: u32 },
}

/// Whether grid cell `c` lies on a layer `w` tiles wide and `h` tiles high.
/// The bounds are compared as 32-bit signed numbers, so a width or height
/// beyond that range holds no cell.
pub open spec fn cell_in_layer(c: (i32, i32), w: u32, h: u32) -> bool {
    &&& 0 <= c.0 && 0 <= c.1
    &&& w <= i32::MAX && h <= i32::MAX
    &&& c.0 < w && c.1 < h
}

/// The layer cell under the cursor, when there is a cursor cell, an active
/// layer of size `bounds`, and the cell lies on it.
pub open spec fn cursor_on_layer(cell: Option<(i32, i32)>, bounds: Option<(u32, u32)>) -> Option<(u32, u32)> {
    match cell {
        Some(c) => match bounds {
            Some(b) => if cell_in_layer(c, b.0, b.1) {
                Some((c.0 as u32, c.1 as u32))
            } else {
                None
            },
            None => None,
        },
        None => None,
    }
}

fn layer_cell(cell: Option<(i32, i32)>, bounds: Option<(u32, u32)>) -> (r: Option<(u32, u32)>)
    ensures
        r == cursor_on_layer(cell, bounds),
{
    match cell {
        Some((cx, cy)) => match bounds {
            Some((w, h)) => {
                if cx < 0 || cy < 0 || w > 0x7fff_ffff || h > 0x7fff_ffff {
                    None
                } else if cx >= w as i32 || cy >= h as i32 {
                    None
                } else {
                    Some((cx as u32, cy as u32))
                }
            },
            None => None,
        },
        None => None,
    }
}

/// The cell the brush works on this frame: the brush is the current tool,
/// the pointer is not over a panel, a tile is selected and the cursor is on
/// the active layer (of size `bounds`).
pub open spec fn target_cell(input: PaintInput, bounds: Option<(u32, u32)>) -> Option<(u32, u32)> {
    if input.tool == EditorTool::Platform && !input.pointer_over_ui && input.selected_tile is Some {
        cursor_on_layer(input.cursor_cell, bounds)
    } else {
        None
    }
}

/// What holding the left button does on cell `c`: the brush paints the
/// stamp (when more than one tile is selected) or the tile; the fill runs
/// on the press itself; rectangles and lines wait for the release.
pub open spec fn press_actions(
    p: TilePainter,
    input: PaintInput,
    c: (u32, u32),
    tile_id: u32,
    stamp: bool,
) -> Seq<PaintAction> {
    if !input.left_pressed {
        Seq::empty()
    } else {
        match p.mode {
            PaintMode::Single => if stamp {
                seq![PaintAction::Stamp { x: c.0, y: c.1, flip_x: p.flip_x, flip_y: p.flip_y }]
            } else {
                seq![PaintAction::Tile { x: c.0, y: c.1, tile_id, flip_x: p.flip_x, flip_y: p.flip_y }]
            },
            PaintMode::BucketFill => if input.left_just_pressed {
                seq![PaintAction::Fill { x: c.0, y: c.1, tile_id, flip_x: p.flip_x, flip_y: p.flip_y }]
            } else {
                Seq::empty()
            },
            _ => Seq::empty(),
        }
    }
}

/// The drag start after the press: a new press in the rectangle or line
/// mode starts a drag on `c`.
pub open spec fn drag_after_press(p: TilePainter, input: PaintInput, c: (u32, u32)) -> Option<(u32, u32)> {
    if input.left_pressed && input.left_just_pressed && (p.mode == PaintMode::Rectangle || p.mode
        == PaintMode::Line) {
        Some(c)
    } else {
        p.drag_start
    }
}

/// What releasing the left button does on cell `c` with drag start `drag`:
/// the rectangle or line from the drag start to `c` is painted.
pub open spec fn release_actions(
    p: TilePainter,
    input: PaintInput,
    drag: Option<(u32, u32)>,
    c: (u32, u32),
    tile_id: u32,
) -> Seq<PaintAction> {
    if input.left_just_released && drag is Some {
        match p.mode {
            PaintMode::Rectangle => seq![
                PaintAction::Rectangle { start: drag->0, end: c, tile_id, flip_x: p.flip_x, flip_y: p.flip_y },
            ],
            PaintMode::Line => seq![
                PaintAction::Line { start: drag->0, end: c, tile_id, flip_x: p.flip_x, flip_y: p.flip_y },
            ],
            _ => Seq::empty(),
        }
    } else {
        Seq::empty()
    }
}

/// What holding the right button does on cell `c`: it erases the cell.
pub open spec fn erase_actions(input: PaintInput, c: (u32, u32)) -> Seq<PaintAction> {
    if input.right_pressed {
        seq![PaintAction::Erase { x: c.0, y: c.1 }]
    } else {
        Seq::empty()
    }
}

/// The operations of one frame, in order: press, release, erase. Nothing is
/// done when there is no target cell.
pub open spec fn frame_actions(
    p: TilePainter,
    input: PaintInput,
    bounds: Option<(u32, u32)>,
    stamp: bool,
) -> Seq<PaintAction> {
    match target_cell(input, bounds) {
        Some(c) => {
            let tile_id = input.selected_tile->0;
            let drag = drag_after_press(p, input, c);
            press_actions(p, input, c, tile_id, stamp) + release_actions(p, input, drag, c, tile_id)
                + erase_actions(input, c)
        },
        None => Seq::empty(),
    }
}

/// The brush state after the frame: without a target cell only the preview
/// is cleared; otherwise the preview shows the target cell, a release ends
/// the drag, and the flip keys toggle the mirroring.
pub open spec fn frame_painter(p: TilePainter, input: PaintInput, bounds: Option<(u32, u32)>) -> TilePainter {
    match target_cell(input, bounds) {
        Some(c) => {
            let drag = drag_after_press(p, input, c);
            TilePainter {
                mode: p.mode,
                flip_x: if input.flip_x_key {
                    !p.flip_x
                } else {
                    p.flip_x
                },
                flip_y: if input.flip_y_key {
                    !p.flip_y
                } else {
                    p.flip_y
                },
                drag_start: if input.left_just_released && drag is Some {
                    None
                } else {
                    drag
                },
                current_pos: Some(c),
            }
        },
        None => TilePainter {
            mode: p.mode,
            flip_x: p.flip_x,
            flip_y: p.flip_y,
            drag_start: p.drag_start,
            current_pos: None,
        },
    }
}

/// `lm1` and `ev1` are `lm0` and `ev0` after operation `a`; a stamp paints
/// the selected tiles `ids`, laid out by `dimensions` and `selection_start`.
pub open spec fn action_done(
    a: PaintAction,
    lm0: LayerManager,
    ev0: Seq<PaintTileEvent>,
    lm1: LayerManager,
    ev1: Seq<PaintTileEvent>,
    ids: Seq<u32>,
    dimensions: Option<(u32, u32)>,
    selection_start: Option<(u32, u32)>,
) -> bool {
    match a {
        PaintAction::Tile { x, y, tile_id, flip_x, flip_y } => single_painted(
            lm0,
            ev0,
            lm1,
            ev1,
            x,
            y,
            tile_id,
            flip_x,
            flip_y,
        ),
        PaintAction::Stamp { x, y, flip_x, flip_y } => stamp_painted(
            lm0,
            ev0,
            lm1,
            ev1,
            x,
            y,
            ids,
            dimensions,
            selection_start,
            flip_x,
            flip_y,
        ),
        PaintAction::Fill { x, y, tile_id, flip_x, flip_y } => fill_painted(
            lm0,
            ev0,
            lm1,
            ev1,
            (x, y),
            tile_id,
            flip_x,
            flip_y,
        ),
        PaintAction::Rectangle { start, end, tile_id, flip_x, flip_y } => rectangle_painted(
            lm0,
            ev0,
            lm1,
            ev1,
            start,
            end,
            tile_id,
            flip_x,
            flip_y,
        ),
        PaintAction::Line { start, end, tile_id, flip_x, flip_y } => line_painted(
            lm0,
            ev0,
            lm1,
            ev1,
            start,
            end,
            tile_id,
            flip_x,
            flip_y,
        ),
        PaintAction::Erase { x, y } => tile_removed(lm0, lm1, x, y) && ev1 == ev0,
    }
}

/// `states` starts a state before the operations `acts` and holds the
/// state (layers and events) after each of them in turn.
pub open spec fn walks_through(
    acts: Seq<PaintAction>,
    states: Seq<(LayerManager, Seq<PaintTileEvent>)>,
    ids: Seq<u32>,
    dimensions: Option<(u32, u32)>,
    selection_start: Option<(u32, u32)>,
) -> bool {
    &&& states.len() == acts.len() + 1
    &&& forall|k: int|
        0 <= k < acts.len() ==> #[trigger] action_done(
            acts[k],
            states[k].0,
            states[k].1,
            states[k + 1].0,
            states[k + 1].1,
            ids,
            dimensions,
            selection_start,
        )
}

/// `lm1` and `ev1` are `lm0` and `ev0` after the operations `acts`, one
/// after the other.
pub open spec fn actions_done(
    acts: Seq<PaintAction>,
    lm0: LayerManager,
    ev0: Seq<PaintTileEvent>,
    lm1: LayerManager,
    ev1: Seq<PaintTileEvent>,
    ids: Seq<u32>,
    dimensions: Option<(u32, u32)>,
    selection_start: Option<(u32, u32)>,
) -> bool {
    exists|states: Seq<(LayerManager, Seq<PaintTileEvent>)>|
        #[trigger] walks_through(acts, states, ids, dimensions, selection_start) && states[0] == (lm0, ev0)
            && states.last() == (lm1, ev1)
}

proof fn lemma_actions_none(lm: LayerManager, ev: Seq<PaintTileEvent>, ids: Seq<u32>, dimensions: Option<(u32, u32)>, selection_start: Option<(u32, u32)>)
    ensures
        actions_done(Seq::empty(), lm, ev, lm, ev, ids, dimensions, selection_start),
{
    let states: Seq<(LayerManager, Seq<PaintTileEvent>)> = seq![(lm, ev)];
    assert(walks_through(Seq::empty(), states, ids, dimensions, selection_start));
}

proof fn lemma_actions_one(
    a: PaintAction,
    lm0: LayerManager,
    ev0: Seq<PaintTileEvent>,
    lm1: LayerManager,
    ev1: Seq<PaintTileEvent>,
    ids: Seq<u32>,
    dimensions: Option<(u32, u32)>,
    selection_start: Option<(u32, u32)>,
)
    requires
        action_done(a, lm0, ev0, lm1, ev1, ids, dimensions, selection_start),
    ensures
        actions_done(seq![a], lm0, ev0, lm1, ev1, ids, dimensions, selection_start),
{
    let states: Seq<(LayerManager, Seq<PaintTileEvent>)> = seq![(lm0, ev0), (lm1, ev1)];
    assert(seq![a][0] == a);
    assert(walks_through(seq![a], states, ids, dimensions, selection_start));
}

proof fn lemma_actions_concat(
    a: Seq<PaintAction>,
    b: Seq<PaintAction>,
    lm0: LayerManager,
    ev0: Seq<PaintTileEvent>,
    lm1: LayerManager,
    ev1: Seq<PaintTileEvent>,
    lm2: LayerManager,
    ev2: Seq<PaintTileEvent>,
    ids: Seq<u32>,
    dimensions: Option<(u32, u32)>,
    selection_start: Option<(u32, u32)>,
)
    requires
        actions_done(a, lm0, ev0, lm1, ev1, ids, dimensions, selection_start),
        actions_done(b, lm1, ev1, lm2, ev2, ids, dimensions, selection_start),
    ensures
        actions_done(a + b, lm0, ev0, lm2, ev2, ids, dimensions, selection_start),
{
    let sa = choose|st: Seq<(LayerManager, Seq<PaintTileEvent>)>|
        #[trigger] walks_through(a, st, ids, dimensions, selection_start) && st[0] == (lm0, ev0) && st.last() == (
        lm1,
        ev1,
    );
    let sb = choose|st: Seq<(LayerManager, Seq<PaintTileEvent>)>|
        #[trigger] walks_through(b, st, ids, dimensions, selection_start) && st[0] == (lm1, ev1) && st.last() == (
        lm2,
        ev2,
    );
    let ab = a + b;
    let st = sa + sb.drop_first();
    assert forall|k: int| 0 <= k < ab.len() implies #[trigger] action_done(
        ab[k],
        st[k].0,
        st[k].1,
        st[k + 1].0,
        st[k + 1].1,
        ids,
        dimensions,
        selection_start,
    ) by {
        if k < a.len() {
            assert(ab[k] == a[k]);
            assert(st[k] == sa[k]);
            assert(st[k + 1] == sa[k + 1]);
        } else {
            let j = k - a.len();
            assert(ab[k] == b[j]);
            assert(st[k] == sb[j]);
            assert(st[k + 1] == sb[j + 1]);
        }
    }
    assert(walks_through(ab, st, ids, dimensions, selection_start));
    assert(st[0] == (lm0, ev0));
    assert(st.last() == (lm2, ev2));
}

/// Whether the stamp the frame may paint fits: when the brush paints a
/// stamp on the target cell, the stamp is ready there.
pub open spec fn frame_stamp_ready(
    p: TilePainter,
    input: PaintInput,
    bounds: Option<(u32, u32)>,
    ids: Seq<u32>,
    dimensions: Option<(u32, u32)>,
    selection_start: Option<(u32, u32)>,
) -> bool {
    match target_cell(input, bounds) {
        Some(c) => input.left_pressed && p.mode == PaintMode::Single && ids.len() > 1 ==> stamp_ready(
            c.0,
            c.1,
            ids,
            dimensions,
            selection_start,
        ),
        None => true,
    }
}

/// The left-button part of a frame on cell `(x, y)`: paints the tile, the
/// stamp or the fill, or starts a drag, as the mode says.
fn press_phase(
    painter: &mut TilePainter,
    input: &PaintInput,
    x: u32,
    y: u32,
    tile_id: u32,
    layer_manager: &mut LayerManager,
    selected_tiles: &Vec<u32>,
    dimensions: Option<(u32, u32)>,
    selection_start: Option<(u32, u32)>,
    paint_events: &mut Vec<PaintTileEvent>,
)
    requires
        active_bounds(*old(layer_manager)) matches Some(b) && x < b.0 && y < b.1,
        input.left_pressed && old(painter).mode == PaintMode::Single && selected_tiles@.len() > 1 ==> stamp_ready(
            x,
            y,
            selected_tiles@,
            dimensions,
            selection_start,
        ),
    ensures
        *final(painter) == (TilePainter {
            drag_start: drag_after_press(*old(painter), *input, (x, y)),
            ..*old(painter)
        }),
        actions_done(
            press_actions(*old(painter), *input, (x, y), tile_id, selected_tiles@.len() > 1),
            *old(layer_manager),
            old(paint_events)@,
            *final(layer_manager),
            final(paint_events)@,
            selected_tiles@,
            dimensions,
            selection_start,
        ),
{
    let ghost p0 = *painter;
    let ghost lm0 = *layer_manager;
    let ghost ev0 = paint_events@;
    let ghost ids = selected_tiles@;
    if input.left_pressed {
        match painter.mode {
            PaintMode::Single => {
                if selected_tiles.len() > 1 {
                    paint_stamp(
                        x,
                        y,
                        selected_tiles,
                        dimensions,
                        selection_start,
                        painter.flip_x,
                        painter.flip_y,
                        layer_manager,
                        paint_events,
                    );
                    proof {
                        let a = PaintAction::Stamp { x, y, flip_x: p0.flip_x, flip_y: p0.flip_y };
                        lemma_actions_one(a, lm0, ev0, *layer_manager, paint_events@, ids, dimensions, selection_start);
                    }
                } else {
                    paint_single_tile(x, y, tile_id, painter.flip_x, painter.flip_y, layer_manager, paint_events);
                    proof {
                        let a = PaintAction::Tile { x, y, tile_id, flip_x: p0.flip_x, flip_y: p0.flip_y };
                        lemma_actions_one(a, lm0, ev0, *layer_manager, paint_events@, ids, dimensions, selection_start);
                    }
                }
            },
            PaintMode::Rectangle | PaintMode::Line => {
                if input.left_just_pressed {
                    painter.drag_start = Some((x, y));
                }
                proof {
                    lemma_actions_none(lm0, ev0, ids, dimensions, selection_start);
                }
            },
            PaintMode::BucketFill => {
                if input.left_just_pressed {
                    bucket_fill(x, y, tile_id, painter.flip_x, painter.flip_y, layer_manager, paint_events);
                    proof {
                        let a = PaintAction::Fill { x, y, tile_id, flip_x: p0.flip_x, flip_y: p0.flip_y };
                        lemma_actions_one(a, lm0, ev0, *layer_manager, paint_events@, ids, dimensions, selection_start);
                    }
                } else {
                    proof {
                        lemma_actions_none(lm0, ev0, ids, dimensions, selection_start);
                    }
                }
            },
        }
    } else {
        proof {
            lemma_actions_none(lm0, ev0, ids, dimensions, selection_start);
        }
    }
}

/// The release part of a frame on cell `(x, y)`: finishes the rectangle or
/// line being dragged and ends the drag.
fn release_phase(
    painter: &mut TilePainter,
    input: &PaintInput,
    x: u32,
    y: u32,
    tile_id: u32,
    layer_manager: &mut LayerManager,
    selected_tiles: &Vec<u32>,
    dimensions: Option<(u32, u32)>,
    selection_start: Option<(u32, u32)>,
    paint_events: &mut Vec<PaintTileEvent>,
)
    requires
        old(painter).wf(),
        x <= line_coord_limit(),
        y <= line_coord_limit(),
    ensures
        *final(painter) == (TilePainter {
            drag_start: if input.left_just_released && old(painter).drag_start is Some {
                None
            } else {
                old(painter).drag_start
            },
            ..*old(painter)
        }),
        actions_done(
            release_actions(*old(painter), *input, old(painter).drag_start, (x, y), tile_id),
            *old(layer_manager),
            old(paint_events)@,
            *final(layer_manager),
            final(paint_events)@,
            selected_tiles@,
            dimensions,
            selection_start,
        ),
{
    let ghost p0 = *painter;
    let ghost lm0 = *layer_manager;
    let ghost ev0 = paint_events@;
    let ghost ids = selected_tiles@;
    proof {
        lemma_actions_none(lm0, ev0, ids, dimensions, selection_start);
    }
    if input.left_just_released {
        if let Some((sx, sy)) = painter.drag_start {
            match painter.mode {
                PaintMode::Rectangle => {
                    paint_rectangle(sx, sy, x, y, tile_id, painter.flip_x, painter.flip_y, layer_manager, paint_events);
                    proof {
                        let a = PaintAction::Rectangle {
                            start: (sx, sy),
                            end: (x, y),
                            tile_id,
                            flip_x: p0.flip_x,
                            flip_y: p0.flip_y,
                        };
                        lemma_actions_one(a, lm0, ev0, *layer_manager, paint_events@, ids, dimensions, selection_start);
                    }
                },
                PaintMode::Line => {
                    paint_line(sx, sy, x, y, tile_id, painter.flip_x, painter.flip_y, layer_manager, paint_events);
                    proof {
                        let a = PaintAction::Line {
                            start: (sx, sy),
                            end: (x, y),
                            tile_id,
                            flip_x: p0.flip_x,
                            flip_y: p0.flip_y,
                        };
                        lemma_actions_one(a, lm0, ev0, *layer_manager, paint_events@, ids, dimensions, selection_start);
                    }
                },
                _ => {},
            }
            painter.drag_start = None;
        }
    }
}

/// Runs the tile brush for one frame: works out the target cell, paints on
/// press or release as the mode says, erases under the right button, and
/// toggles the mirroring keys. Paint events go to `paint_events`; a stamp
/// paints `selected_tiles`, laid out by `dimensions` and `selection_start`.
pub fn handle_tile_painting(
    painter: &mut TilePainter,
    input: &PaintInput,
    layer_manager: &mut LayerManager,
    selected_tiles: &Vec<u32>,
    dimensions: Option<(u32, u32)>,
    selection_start: Option<(u32, u32)>,
    paint_events: &mut Vec<PaintTileEvent>,
)
    requires
        old(painter).wf(),
        frame_stamp_ready(
            *old(painter),
            *input,
            active_bounds(*old(layer_manager)),
            selected_tiles@,
            dimensions,
            selection_start,
        ),
    ensures
        final(painter).wf(),
        *final(painter) == frame_painter(*old(painter), *input, active_bounds(*old(layer_manager))),
        actions_done(
            frame_actions(*old(painter), *input, active_bounds(*old(layer_manager)), selected_tiles@.len() > 1),
            *old(layer_manager),
            old(paint_events)@,
            *final(layer_manager),
            final(paint_events)@,
            selected_tiles@,
            dimensions,
            selection_start,
        ),
{
    let ghost p0 = *painter;
    let ghost lm0 = *layer_manager;
    let ghost ev0 = paint_events@;
    let ghost ids = selected_tiles@;
    let bounds: Option<(u32, u32)> = match layer_manager.get_active_layer() {
        Some(layer) => Some((layer.metadata.width, layer.metadata.height)),
        None => None,
    };
    let cell = if input.tool == EditorTool::Platform && !input.pointer_over_ui && input.selected_tile.is_some() {
        layer_cell(input.cursor_cell, bounds)
    } else {
        None
    };
    let (x, y) = match cell {
        Some(c) => c,
        None => {
            painter.current_pos = None;
            proof {
                lemma_actions_none(lm0, ev0, ids, dimensions, selection_start);
            }
            return;
        },
    };
    let tile_id = match input.selected_tile {
        Some(t) => t,
        None => {
            return;
        },
    };
    painter.current_pos = Some((x, y));
    let ghost p1 = *painter;
    press_phase(painter, input, x, y, tile_id, layer_manager, selected_tiles, dimensions, selection_start, paint_events);
    let ghost lm1 = *layer_manager;
    let ghost ev1 = paint_events@;
    release_phase(painter, input, x, y, tile_id, layer_manager, selected_tiles, dimensions, selection_start, paint_events);
    let ghost lm2 = *layer_manager;
    let ghost ev2 = paint_events@;
    if input.right_pressed {
        layer_manager.remove_tile(x, y);
        proof {
            lemma_actions_one(PaintAction::Erase { x, y }, lm2, ev2, *layer_manager, paint_events@, ids, dimensions, selection_start);
        }
    } else {
        proof {
            lemma_actions_none(lm2, ev2, ids, dimensions, selection_start);
        }
    }
    if input.flip_x_key {
        painter.flip_x = !painter.flip_x;
    }
    if input.flip_y_key {
        painter.flip_y = !painter.flip_y;
    }
    proof {
        let c = (x, y);
        let pa = press_actions(p1, *input, c, tile_id, ids.len() > 1);
        let ra = release_actions(p1, *input, drag_after_press(p1, *input, c), c, tile_id);
        let ea = erase_actions(*input, c);
        assert(pa == press_actions(p0, *input, c, tile_id, ids.len() > 1));
        assert(ra == release_actions(p0, *input, drag_after_press(p0, *input, c), c, tile_id));
        lemma_actions_concat(pa, ra, lm0, ev0, lm1, ev1, lm2, ev2, ids, dimensions, selection_start);
        lemma_actions_concat(pa + ra, ea, lm0, ev0, lm2, ev2, *layer_manager, paint_events@, ids, dimensions, selection_start);
    }
}

/// What the eyedropper reads in one frame.
#[derive(Clone, Copy, Debug)]
pub struct EyedropperInput {
    /// An Alt key is held, which picks with any tool.
    pub alt_held: bool,
    /// Whether the pointer is over a panel.
    pub pointer_over_ui: bool,
    /// The grid cell under the cursor on the active layer's grid, when the
    /// cursor has a world position.
    pub cursor_cell: Option<(i32, i32)>,
    pub left_just_pressed: bool,
}

/// The tile the eyedropper picks this frame: the eyedropper is the current
/// tool or Alt is held, the pointer is not over a panel, the left button was
/// just pressed, and the cursor is on a painted cell of the active layer.
pub open spec fn picked_tile(input: EyedropperInput, tool: EditorTool, lm: LayerManager) -> Option<TileData> {
    if (tool == EditorTool::Eyedropper || input.alt_held) && !input.pointer_over_ui && input.left_just_pressed {
        match cursor_on_layer(input.cursor_cell, active_bounds(lm)) {
            Some(c) => tile_at(lm.active_tiles()->0, c.0, c.1),
            None => None,
        }
    } else {
        None
    }
}

/// Picks the tile under the cursor: it becomes the selected tile, and
/// unless the pick was a temporary one (Alt held with another tool), the
/// editor switches to the brush in single-tile mode.
pub fn handle_eyedropper(
    input: &EyedropperInput,
    layer_manager: &LayerManager,
    selected_tile_id: &mut Option<u32>,
    tool: &mut EditorTool,
    mode: &mut PaintMode,
)
    ensures
        match picked_tile(*input, *old(tool), *layer_manager) {
            Some(t) => {
                &&& *final(selected_tile_id) == Some(t.tile_id)
                &&& if input.alt_held && *old(tool) != EditorTool::Eyedropper {
                    *final(tool) == *old(tool) && *final(mode) == *old(mode)
                } else {
                    *final(tool) == EditorTool::Platform && *final(mode) == PaintMode::Single
                }
            },
            None => {
                &&& *final(selected_tile_id) == *old(selected_tile_id)
                &&& *final(tool) == *old(tool)
                &&& *final(mode) == *old(mode)
            },
        },
{
    let active = *tool == EditorTool::Eyedropper || input.alt_held;
    if !active || input.pointer_over_ui {
        return;
    }
    let bounds: Option<(u32, u32)> = match layer_manager.get_active_layer() {
        Some(layer) => Some((layer.metadata.width, layer.metadata.height)),
        None => None,
    };
    let (x, y) = match layer_cell(input.cursor_cell, bounds) {
        Some(c) => c,
        None => {
            return;
        },
    };
    if input.left_just_pressed {
        if let Some(tile) = layer_manager.get_tile_at(x, y) {
            *selected_tile_id = Some(tile.tile_id);
            if input.alt_held && *tool != EditorTool::Eyedropper {
                // A temporary pick keeps the current tool.
            } else {
                *tool = EditorTool::Platform;
                *mode = PaintMode::Single;
            }
        }
    }
}

/// While the left button stays held with no new press and no release, the
/// drag start of a rectangle or line does not move, whatever cell the
/// cursor is on.
pub proof fn lemma_held_button_keeps_drag_start(p: TilePainter, input: PaintInput, bounds: Option<(u32, u32)>)
    requires
        !input.left_just_pressed,
        !input.left_just_released,
    ensures
        frame_painter(p, input, bounds).drag_start == p.drag_start,
{
}

/// A new press of the left button on the brush's target cell `c`, in the
/// rectangle or line mode and without a release in the same frame, starts
/// the drag there.
pub proof fn lemma_press_starts_drag(p: TilePainter, input: PaintInput, bounds: Option<(u32, u32)>, c: (u32, u32))
    requires
        p.mode == PaintMode::Rectangle || p.mode == PaintMode::Line,
        target_cell(input, bounds) == Some(c),
        input.left_pressed,
        input.left_just_pressed,
        !input.left_just_released,
    ensures
        frame_painter(p, input, bounds).drag_start == Some(c),
        frame_actions(p, input, bounds, false).len() == (if input.right_pressed { 1int } else { 0 }),
{
}

/// Releasing the left button on target cell `c`, without a new press, with
/// a drag started at `s`, paints first the rectangle (or line, in that
/// mode) from `s` to `c` with the selected tile, and ends the drag.
pub proof fn lemma_release_paints_from_drag_start(
    p: TilePainter,
    input: PaintInput,
    bounds: Option<(u32, u32)>,
    c: (u32, u32),
    s: (u32, u32),
    stamp: bool,
)
    requires
        p.mode == PaintMode::Rectangle || p.mode == PaintMode::Line,
        p.drag_start == Some(s),
        target_cell(input, bounds) == Some(c),
        !input.left_just_pressed,
        input.left_just_released,
    ensures
        frame_actions(p, input, bounds, stamp).len() > 0,
        p.mode == PaintMode::Rectangle ==> frame_actions(p, input, bounds, stamp)[0] == (PaintAction::Rectangle {
            start: s,
            end: c,
            tile_id: input.selected_tile->0,
            flip_x: p.flip_x,
            flip_y: p.flip_y,
        }),
        p.mode == PaintMode::Line ==> frame_actions(p, input, bounds, stamp)[0] == (PaintAction::Line {
            start: s,
            end: c,
            tile_id: input.selected_tile->0,
            flip_x: p.flip_x,
            flip_y: p.flip_y,
        }),
        frame_painter(p, input, bounds).drag_start is None,
{
}

proof fn lemma_held_frames_keep_drag(
    inputs: Seq<PaintInput>,
    bounds: Option<(u32, u32)>,
    painters: Seq<TilePainter>,
    start: (u32, u32),
    k: int,
)
    requires
        1 <= k < inputs.len(),
        painters.len() == inputs.len(),
        painters[1].drag_start == Some(start),
        forall|j: int| 0 <= j < inputs.len() - 1 ==> painters[j + 1] == #[trigger] frame_painter(painters[j], inputs[j], bounds),
        forall|j: int|
            0 < j < inputs.len() - 1 ==> !(#[trigger] inputs[j]).left_just_pressed && !inputs[j].left_just_released,
    ensures
        painters[k].drag_start == Some(start),
        painters[k].mode == painters[1].mode,
    decreases k,
{
    if k > 1 {
        lemma_held_frames_keep_drag(inputs, bounds, painters, start, k - 1);
        lemma_held_button_keeps_drag_start(painters[k - 1], inputs[k - 1], bounds);
        assert(painters[k] == frame_painter(painters[k - 1], inputs[k - 1], bounds));
    }
}

/// A press, any number of held frames and a release, in the rectangle mode
/// with the cursor on the layer throughout, paint the rectangle from the
/// cell first pressed to the cell released on.
pub proof fn lemma_drag_paints_rectangle_from_press(
    p0: TilePainter,
    inputs: Seq<PaintInput>,
    bounds: Option<(u32, u32)>,
    painters: Seq<TilePainter>,
    start: (u32, u32),
    end: (u32, u32),
    stamp: bool,
)
    requires
        inputs.len() >= 2,
        painters.len() == inputs.len(),
        p0.mode == PaintMode::Rectangle,
        painters[0] == p0,
        forall|k: int| 0 <= k < inputs.len() - 1 ==> painters[k + 1] == #[trigger] frame_painter(painters[k], inputs[k], bounds),
        target_cell(inputs[0], bounds) == Some(start),
        inputs[0].left_pressed && inputs[0].left_just_pressed && !inputs[0].left_just_released,
        forall|k: int|
            0 < k < inputs.len() - 1 ==> !(#[trigger] inputs[k]).left_just_pressed && !inputs[k].left_just_released,
        target_cell(inputs.last(), bounds) == Some(end),
        !inputs.last().left_just_pressed,
        inputs.last().left_just_released,
    ensures
        frame_actions(painters.last(), inputs.last(), bounds, stamp)[0] == (PaintAction::Rectangle {
            start,
            end,
            tile_id: inputs.last().selected_tile->0,
            flip_x: painters.last().flip_x,
            flip_y: painters.last().flip_y,
        }),
{
    lemma_press_starts_drag(p0, inputs[0], bounds, start);
    assert(painters[1] == frame_painter(painters[0], inputs[0], bounds));
    lemma_held_frames_keep_drag(inputs, bounds, painters, start, inputs.len() - 1);
    lemma_release_paints_from_drag_start(painters.last(), inputs.last(), bounds, end, start, stamp);
}

/// Over a panel the brush does nothing: no painting operation, and the
/// drag start and the flips stay as they were.
pub proof fn lemma_brush_ignores_panels(p: TilePainter, input: PaintInput, bounds: Option<(u32, u32)>, stamp: bool)
    requires
        input.pointer_over_ui,
    ensures
        frame_actions(p, input, bounds, stamp).len() == 0,
        frame_painter(p, input, bounds).drag_start == p.drag_start,
        frame_painter(p, input, bounds).flip_x == p.flip_x,
        frame_painter(p, input, bounds).flip_y == p.flip_y,
{
}

/// Over a panel the eyedropper picks nothing, so the selected tile, the
/// tool and the mode stay as they were.
pub proof fn lemma_eyedropper_ignores_panels(input: EyedropperInput, tool: EditorTool, lm: LayerManager)
    requires
        input.pointer_over_ui,
    ensures
        picked_tile(input, tool, lm) is None,
{
}

/// The eyedropper picks only on a fresh click, and what it picks is the
/// tile painted on the active layer at the cell under the cursor.
pub proof fn lemma_eyedropper_picks_tile_under_cursor(input: EyedropperInput, tool: EditorTool, lm: LayerManager)
    ensures
        picked_tile(input, tool, lm) is Some ==> {
            &&& input.left_just_pressed
            &&& !input.pointer_over_ui
            &&& tool == EditorTool::Eyedropper || input.alt_held
            &&& lm.active_tiles() is Some
            &&& input.cursor_cell matches Some(c) && picked_tile(input, tool, lm) == tile_at(
                lm.active_tiles()->0,
                c.0 as u32,
                c.1 as u32,
            )
        },
{
}

} // verus!
