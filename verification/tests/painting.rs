use eryndor::editor_state::{EditorTool, PaintMode};
use eryndor::layer_manager::{create_default_layer, LayerManager, LayerType, TileData};
use eryndor::tile_painter::{bucket_fill, paint_line, paint_rectangle, paint_single_tile, paint_stamp, PaintTileEvent};
use eryndor::tile_tool::{handle_eyedropper, handle_tile_painting, EyedropperInput, PaintInput, TilePainter};

fn layer_manager(width: u32, height: u32) -> LayerManager {
    let mut lm = LayerManager::new();
    let mut meta = create_default_layer(LayerType::Tiles, "Ground", 0, None);
    meta.width = width;
    meta.height = height;
    lm.add_layer(meta);
    lm
}

fn cells(events: &[PaintTileEvent]) -> Vec<(u32, u32)> {
    events.iter().map(|e| (e.x, e.y)).collect()
}

fn tile_id_at(lm: &LayerManager, x: u32, y: u32) -> Option<u32> {
    lm.get_tile_at(x, y).map(|t| t.tile_id)
}

fn brush_input(cell: (i32, i32)) -> PaintInput {
    PaintInput {
        tool: EditorTool::Platform,
        pointer_over_ui: false,
        cursor_cell: Some(cell),
        selected_tile: Some(9),
        left_pressed: false,
        left_just_pressed: false,
        left_just_released: false,
        right_pressed: false,
        flip_x_key: false,
        flip_y_key: false,
    }
}

#[test]
fn single_tile_is_painted_and_reported() {
    let mut lm = layer_manager(8, 8);
    let mut events = Vec::new();
    paint_single_tile(2, 5, 7, true, false, &mut lm, &mut events);
    assert_eq!(lm.get_tile_at(2, 5), Some(&TileData { x: 2, y: 5, tile_id: 7, flip_x: true, flip_y: false }));
    assert_eq!(events, vec![PaintTileEvent { layer_id: 0, x: 2, y: 5, tile_id: 7 }]);
}

#[test]
fn rectangle_covers_every_cell_row_by_row() {
    let mut lm = layer_manager(8, 8);
    let mut events = Vec::new();
    paint_rectangle(3, 2, 1, 1, 4, false, false, &mut lm, &mut events);
    assert_eq!(cells(&events), vec![(1, 1), (2, 1), (3, 1), (1, 2), (2, 2), (3, 2)]);
    for (x, y) in cells(&events) {
        assert_eq!(tile_id_at(&lm, x, y), Some(4));
    }
    assert_eq!(tile_id_at(&lm, 0, 1), None);
    assert_eq!(tile_id_at(&lm, 4, 2), None);
    assert_eq!(lm.layers[0].tiles.len(), 6);
}

#[test]
fn line_follows_bresenham() {
    let mut lm = layer_manager(8, 8);
    let mut events = Vec::new();
    paint_line(0, 0, 3, 1, 2, false, false, &mut lm, &mut events);
    assert_eq!(cells(&events), vec![(0, 0), (1, 0), (2, 1), (3, 1)]);
    for (x, y) in cells(&events) {
        assert_eq!(tile_id_at(&lm, x, y), Some(2));
    }
}

#[test]
fn line_backwards_and_single_cell() {
    let mut lm = layer_manager(8, 8);
    let mut events = Vec::new();
    paint_line(4, 4, 1, 4, 2, false, false, &mut lm, &mut events);
    assert_eq!(cells(&events), vec![(4, 4), (3, 4), (2, 4), (1, 4)]);
    let mut events = Vec::new();
    paint_line(5, 5, 5, 5, 3, false, false, &mut lm, &mut events);
    assert_eq!(cells(&events), vec![(5, 5)]);
    let mut events = Vec::new();
    paint_line(0, 0, 2, 2, 3, false, false, &mut lm, &mut events);
    assert_eq!(cells(&events), vec![(0, 0), (1, 1), (2, 2)]);
}

#[test]
fn stamp_puts_first_selected_row_on_top() {
    let mut lm = layer_manager(64, 64);
    let mut events = Vec::new();
    let selected = vec![1, 2, 3, 4];
    paint_stamp(5, 5, &selected, Some((2, 2)), Some((0, 0)), false, false, &mut lm, &mut events);
    assert_eq!(
        events,
        vec![
            PaintTileEvent { layer_id: 0, x: 5, y: 6, tile_id: 1 },
            PaintTileEvent { layer_id: 0, x: 6, y: 6, tile_id: 2 },
            PaintTileEvent { layer_id: 0, x: 5, y: 5, tile_id: 3 },
            PaintTileEvent { layer_id: 0, x: 6, y: 5, tile_id: 4 },
        ]
    );
    assert_eq!(tile_id_at(&lm, 6, 6), Some(2));
}

#[test]
fn stamp_skips_cells_off_the_layer() {
    let mut lm = layer_manager(64, 64);
    let mut events = Vec::new();
    let selected = vec![1, 2, 3, 4];
    paint_stamp(63, 63, &selected, Some((2, 2)), Some((0, 0)), false, false, &mut lm, &mut events);
    assert_eq!(events, vec![PaintTileEvent { layer_id: 0, x: 63, y: 63, tile_id: 3 }]);
}

#[test]
fn stamp_without_layout_does_nothing() {
    let mut lm = layer_manager(64, 64);
    let mut events = Vec::new();
    let selected = vec![1, 2];
    paint_stamp(1, 1, &selected, None, Some((0, 0)), false, false, &mut lm, &mut events);
    paint_stamp(1, 1, &selected, Some((2, 1)), None, false, false, &mut lm, &mut events);
    assert!(events.is_empty());
    assert!(lm.layers[0].tiles.is_empty());
}

#[test]
fn bucket_fill_fills_the_whole_empty_layer() {
    let mut lm = layer_manager(4, 3);
    let mut events = Vec::new();
    bucket_fill(0, 0, 7, false, false, &mut lm, &mut events);
    assert_eq!(events.len(), 12);
    for y in 0..3 {
        for x in 0..4 {
            assert_eq!(tile_id_at(&lm, x, y), Some(7));
        }
    }
    let mut reported = cells(&events);
    reported.sort();
    reported.dedup();
    assert_eq!(reported.len(), 12);
}

#[test]
fn bucket_fill_stops_at_other_tiles() {
    let mut lm = layer_manager(4, 3);
    let mut events = Vec::new();
    for y in 0..3 {
        paint_single_tile(2, y, 1, false, false, &mut lm, &mut events);
    }
    let mut events = Vec::new();
    bucket_fill(0, 1, 7, false, false, &mut lm, &mut events);
    assert_eq!(events.len(), 6);
    for y in 0..3 {
        assert_eq!(tile_id_at(&lm, 0, y), Some(7));
        assert_eq!(tile_id_at(&lm, 1, y), Some(7));
        assert_eq!(tile_id_at(&lm, 2, y), Some(1));
        assert_eq!(tile_id_at(&lm, 3, y), None);
    }
}

#[test]
fn bucket_fill_replaces_connected_same_tiles() {
    let mut lm = layer_manager(3, 1);
    let mut events = Vec::new();
    paint_single_tile(0, 0, 5, false, false, &mut lm, &mut events);
    paint_single_tile(1, 0, 5, false, false, &mut lm, &mut events);
    let mut events = Vec::new();
    bucket_fill(1, 0, 8, false, false, &mut lm, &mut events);
    assert_eq!(events.len(), 2);
    assert_eq!(tile_id_at(&lm, 0, 0), Some(8));
    assert_eq!(tile_id_at(&lm, 1, 0), Some(8));
    assert_eq!(tile_id_at(&lm, 2, 0), None);
}

#[test]
fn bucket_fill_with_same_tile_does_nothing() {
    let mut lm = layer_manager(3, 3);
    let mut events = Vec::new();
    paint_single_tile(1, 1, 4, false, false, &mut lm, &mut events);
    let mut events = Vec::new();
    bucket_fill(1, 1, 4, false, false, &mut lm, &mut events);
    assert!(events.is_empty());
    assert_eq!(lm.layers[0].tiles.len(), 1);
}

#[test]
fn brush_paints_selected_tile_under_cursor() {
    let mut lm = layer_manager(10, 10);
    let mut painter = TilePainter::default();
    let mut events = Vec::new();
    let mut input = brush_input((2, 3));
    input.left_pressed = true;
    input.left_just_pressed = true;
    handle_tile_painting(&mut painter, &input, &mut lm, &vec![9], Some((1, 1)), Some((0, 0)), &mut events);
    assert_eq!(painter.current_pos, Some((2, 3)));
    assert_eq!(tile_id_at(&lm, 2, 3), Some(9));
    assert_eq!(cells(&events), vec![(2, 3)]);
}

#[test]
fn brush_does_nothing_with_other_tool_or_over_ui_or_off_layer() {
    let mut lm = layer_manager(10, 10);
    let mut events = Vec::new();
    for (tool, over_ui, cell) in [
        (EditorTool::Select, false, (1, 1)),
        (EditorTool::Platform, true, (1, 1)),
        (EditorTool::Platform, false, (-1, 1)),
        (EditorTool::Platform, false, (10, 1)),
    ] {
        let mut painter = TilePainter::default();
        painter.current_pos = Some((0, 0));
        let mut input = brush_input(cell);
        input.tool = tool;
        input.pointer_over_ui = over_ui;
        input.left_pressed = true;
        input.flip_x_key = true;
        handle_tile_painting(&mut painter, &input, &mut lm, &vec![9], None, None, &mut events);
        assert_eq!(painter.current_pos, None);
        assert!(!painter.flip_x);
    }
    assert!(events.is_empty());
    assert!(lm.layers[0].tiles.is_empty());
}

#[test]
fn rectangle_tool_paints_on_release() {
    let mut lm = layer_manager(10, 10);
    let mut painter = TilePainter::default();
    painter.mode = PaintMode::Rectangle;
    let mut events = Vec::new();
    let mut press = brush_input((1, 1));
    press.left_pressed = true;
    press.left_just_pressed = true;
    handle_tile_painting(&mut painter, &press, &mut lm, &vec![9], None, None, &mut events);
    assert_eq!(painter.drag_start, Some((1, 1)));
    assert!(events.is_empty());
    let mut release = brush_input((2, 2));
    release.left_just_released = true;
    handle_tile_painting(&mut painter, &release, &mut lm, &vec![9], None, None, &mut events);
    assert_eq!(painter.drag_start, None);
    assert_eq!(cells(&events), vec![(1, 1), (2, 1), (1, 2), (2, 2)]);
}

#[test]
fn line_tool_paints_on_release() {
    let mut lm = layer_manager(10, 10);
    let mut painter = TilePainter::default();
    painter.mode = PaintMode::Line;
    let mut events = Vec::new();
    let mut press = brush_input((0, 0));
    press.left_pressed = true;
    press.left_just_pressed = true;
    handle_tile_painting(&mut painter, &press, &mut lm, &vec![9], None, None, &mut events);
    let mut release = brush_input((3, 1));
    release.left_just_released = true;
    handle_tile_painting(&mut painter, &release, &mut lm, &vec![9], None, None, &mut events);
    assert_eq!(cells(&events), vec![(0, 0), (1, 0), (2, 1), (3, 1)]);
}

#[test]
fn fill_tool_fills_on_press() {
    let mut lm = layer_manager(2, 2);
    let mut painter = TilePainter::default();
    painter.mode = PaintMode::BucketFill;
    let mut events = Vec::new();
    let mut held = brush_input((0, 0));
    held.left_pressed = true;
    handle_tile_painting(&mut painter, &held, &mut lm, &vec![9], None, None, &mut events);
    assert!(events.is_empty());
    held.left_just_pressed = true;
    handle_tile_painting(&mut painter, &held, &mut lm, &vec![9], None, None, &mut events);
    assert_eq!(events.len(), 4);
}

#[test]
fn brush_paints_stamp_when_several_tiles_selected() {
    let mut lm = layer_manager(10, 10);
    let mut painter = TilePainter::default();
    let mut events = Vec::new();
    let mut input = brush_input((1, 1));
    input.left_pressed = true;
    handle_tile_painting(&mut painter, &input, &mut lm, &vec![5, 6], Some((2, 1)), Some((0, 0)), &mut events);
    assert_eq!(cells(&events), vec![(1, 1), (2, 1)]);
    assert_eq!(tile_id_at(&lm, 2, 1), Some(6));
}

#[test]
fn right_button_erases_and_keys_flip() {
    let mut lm = layer_manager(10, 10);
    let mut events = Vec::new();
    paint_single_tile(4, 4, 3, false, false, &mut lm, &mut events);
    let mut painter = TilePainter::default();
    let mut input = brush_input((4, 4));
    input.right_pressed = true;
    input.flip_x_key = true;
    input.flip_y_key = true;
    handle_tile_painting(&mut painter, &input, &mut lm, &vec![9], None, None, &mut events);
    assert_eq!(tile_id_at(&lm, 4, 4), None);
    assert!(painter.flip_x && painter.flip_y);
    let mut paint = brush_input((5, 5));
    paint.left_pressed = true;
    handle_tile_painting(&mut painter, &paint, &mut lm, &vec![9], None, None, &mut events);
    assert_eq!(lm.get_tile_at(5, 5), Some(&TileData { x: 5, y: 5, tile_id: 9, flip_x: true, flip_y: true }));
}

#[test]
fn eyedropper_picks_and_switches_to_brush() {
    let mut lm = layer_manager(10, 10);
    let mut events = Vec::new();
    paint_single_tile(3, 3, 12, false, false, &mut lm, &mut events);
    let mut selected = Some(1);
    let mut tool = EditorTool::Eyedropper;
    let mut mode = PaintMode::Rectangle;
    let input = EyedropperInput { alt_held: false, pointer_over_ui: false, cursor_cell: Some((3, 3)), left_just_pressed: true };
    handle_eyedropper(&input, &lm, &mut selected, &mut tool, &mut mode);
    assert_eq!(selected, Some(12));
    assert_eq!(tool, EditorTool::Platform);
    assert_eq!(mode, PaintMode::Single);
}

#[test]
fn eyedropper_with_alt_keeps_tool() {
    let mut lm = layer_manager(10, 10);
    let mut events = Vec::new();
    paint_single_tile(3, 3, 12, false, false, &mut lm, &mut events);
    let mut selected = None;
    let mut tool = EditorTool::Select;
    let mut mode = PaintMode::Line;
    let input = EyedropperInput { alt_held: true, pointer_over_ui: false, cursor_cell: Some((3, 3)), left_just_pressed: true };
    handle_eyedropper(&input, &lm, &mut selected, &mut tool, &mut mode);
    assert_eq!(selected, Some(12));
    assert_eq!(tool, EditorTool::Select);
    assert_eq!(mode, PaintMode::Line);
}

#[test]
fn eyedropper_on_empty_cell_or_inactive_does_nothing() {
    let lm = layer_manager(10, 10);
    let mut selected = Some(1);
    let mut tool = EditorTool::Eyedropper;
    let mut mode = PaintMode::Line;
    let input = EyedropperInput { alt_held: false, pointer_over_ui: false, cursor_cell: Some((3, 3)), left_just_pressed: true };
    handle_eyedropper(&input, &lm, &mut selected, &mut tool, &mut mode);
    assert_eq!((selected, tool, mode), (Some(1), EditorTool::Eyedropper, PaintMode::Line));
    let mut tool = EditorTool::Platform;
    handle_eyedropper(&input, &lm, &mut selected, &mut tool, &mut mode);
    assert_eq!((selected, tool), (Some(1), EditorTool::Platform));
}
