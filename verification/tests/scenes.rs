use eryndor::scene_editor::{EditorScene, SceneTreeAction, SceneTreeCommand};
use eryndor::scene_files::{
    capture_tilemap_state, convert_to_relative_asset_path, handle_save_load, last_opened_after_save, level_tilesets,
    saved_layers, update_last_opened_scene, SceneAutoLoader, SceneFileAction, TilesetSource,
};
use eryndor::scene_tabs::{scene_name_from_stem, OpenScene, OpenScenes};
use eryndor::tilemap_canvas::{
    restore_tilemap_from_level, sync_tilemap_on_scene_switch, CanvasTile, LevelTileInstance, PendingTilemapRestore,
    TilemapCanvas,
};

fn canvas(width: u32, height: u32) -> TilemapCanvas {
    TilemapCanvas {
        width,
        height,
        tiles: vec![CanvasTile { texture_index: 0, visible: false }; (width * height) as usize],
    }
}

fn inst(x: u32, y: u32, tile_id: u32) -> LevelTileInstance {
    LevelTileInstance { x, y, tile_id }
}

fn source(id: u32, path: &str) -> TilesetSource {
    TilesetSource {
        id,
        identifier: format!("set{}", id),
        texture_path: path.to_string(),
        tile_width: 16,
        tile_height: 16,
    }
}

fn scene(name: &str, level: u32, modified: bool) -> OpenScene<u32> {
    let mut s = OpenScene::new(name.to_string(), level);
    s.is_modified = modified;
    s
}

#[test]
fn tabs_start_with_one_untitled_scene() {
    let tabs = OpenScenes::with_untitled(0u32);
    assert_eq!(tabs.scenes.len(), 1);
    assert_eq!(tabs.scenes[0].name, "Untitled");
    assert_eq!(tabs.scenes[0].file_path, None);
    assert_eq!(tabs.active_index, 0);
    assert!(!tabs.has_unsaved_changes());
}

#[test]
fn add_scene_makes_it_active() {
    let mut tabs = OpenScenes::with_untitled(0u32);
    tabs.add_scene(scene("Castle", 1, false));
    assert_eq!(tabs.active_index, 1);
    assert_eq!(tabs.active_scene().map(|s| s.level_data), Some(1));
    tabs.active_scene_mut().unwrap().is_modified = true;
    assert!(tabs.has_unsaved_changes());
    assert!(!tabs.can_open_scene());
}

#[test]
fn close_scene_keeps_active_scene() {
    let mut tabs = OpenScenes::with_untitled(0u32);
    tabs.add_scene(scene("A", 1, false));
    tabs.add_scene(scene("B", 2, false));
    tabs.set_active(2);
    tabs.close_scene(0, 99);
    assert_eq!(tabs.scenes.len(), 2);
    assert_eq!(tabs.active_index, 1);
    assert_eq!(tabs.active_scene().map(|s| s.level_data), Some(2));
}

#[test]
fn close_active_last_scene_moves_to_new_last() {
    let mut tabs = OpenScenes::with_untitled(0u32);
    tabs.add_scene(scene("A", 1, false));
    tabs.close_scene(1, 99);
    assert_eq!(tabs.scenes.len(), 1);
    assert_eq!(tabs.active_index, 0);
}

#[test]
fn closing_the_last_tab_resets_it() {
    let mut tabs = OpenScenes::with_untitled(0u32);
    tabs.scenes[0] = scene("Level", 5, true);
    tabs.close_scene(0, 42);
    assert_eq!(tabs.scenes.len(), 1);
    assert_eq!(tabs.scenes[0].name, "Untitled");
    assert_eq!(tabs.scenes[0].level_data, 42);
    assert!(!tabs.scenes[0].is_modified);
    assert_eq!(tabs.active_index, 0);
}

#[test]
fn set_active_ignores_missing_tab() {
    let mut tabs = OpenScenes::with_untitled(0u32);
    tabs.set_active(3);
    assert_eq!(tabs.active_index, 0);
    assert!(tabs.can_open_scene());
}

#[test]
fn scene_from_file_is_named_after_the_stem() {
    let s = OpenScene::from_file("assets/levels/castle.bscene", 3u32);
    assert_eq!(s.name, "castle");
    assert_eq!(s.file_path.as_deref(), Some("assets/levels/castle.bscene"));
    assert!(!s.is_modified);
    assert_eq!(scene_name_from_stem(None), "Untitled");
    assert_eq!(scene_name_from_stem(Some("cave".to_string())), "cave");
}

#[test]
fn saving_renames_and_clears_changes() {
    let mut s = scene("Untitled", 1, true);
    s.mark_saved_to("levels/forest.bscene");
    assert_eq!(s.name, "forest");
    assert_eq!(s.file_path.as_deref(), Some("levels/forest.bscene"));
    assert!(!s.is_modified);
}

#[test]
fn editor_scene_selection() {
    let mut s = EditorScene::new(1);
    assert_eq!(s.root_entity, Some(1));
    s.select_entity(5);
    assert!(s.is_selected(5));
    assert!(!s.is_selected(6));
    s.clear_selection();
    assert!(!s.is_selected(5));
    s.mark_modified();
    assert!(s.is_modified);
    s.mark_saved();
    assert!(!s.is_modified);
    let d = EditorScene::default();
    assert_eq!((d.root_entity, d.selected_entity, d.is_modified), (None, None, false));
}

#[test]
fn scene_tree_commands() {
    let mut s = EditorScene::new(1);
    match s.apply_tree_command(SceneTreeCommand::AddEntity { parent: None }, 10) {
        SceneTreeAction::SetParentOfNew { parent } => assert_eq!(parent, Some(1)),
        _ => panic!("unexpected action"),
    }
    assert_eq!(s.selected_entity, Some(10));
    assert!(s.is_modified);
    match s.apply_tree_command(SceneTreeCommand::AddEntity { parent: Some(4) }, 11) {
        SceneTreeAction::SetParentOfNew { parent } => assert_eq!(parent, Some(4)),
        _ => panic!("unexpected action"),
    }
    match s.apply_tree_command(SceneTreeCommand::RenameEntity { entity: 11, new_name: "Hero".to_string() }, 0) {
        SceneTreeAction::Rename { entity, name } => assert_eq!((entity, name.as_str()), (11, "Hero")),
        _ => panic!("unexpected action"),
    }
    assert_eq!(s.selected_entity, Some(11));
    match s.apply_tree_command(SceneTreeCommand::ReparentEntity { entity: 11, new_parent: None }, 0) {
        SceneTreeAction::Reparent { entity, parent } => assert_eq!((entity, parent), (11, None)),
        _ => panic!("unexpected action"),
    }
    match s.apply_tree_command(SceneTreeCommand::DeleteEntity { entity: 11 }, 0) {
        SceneTreeAction::DespawnRecursive { entity } => assert_eq!(entity, 11),
        _ => panic!("unexpected action"),
    }
    assert_eq!(s.selected_entity, None);
}

#[test]
fn capture_lists_visible_tiles_row_by_row() {
    let mut c = canvas(3, 2);
    c.tiles[4] = CanvasTile { texture_index: 7, visible: true };
    c.tiles[0] = CanvasTile { texture_index: 2, visible: true };
    c.tiles[2] = CanvasTile { texture_index: 9, visible: false };
    assert_eq!(c.capture_tiles(), vec![inst(0, 0, 2), inst(1, 1, 7)]);
}

#[test]
fn restore_shows_tiles_and_skips_off_grid() {
    let mut c = canvas(3, 2);
    c.restore_tiles(&vec![inst(2, 1, 4), inst(5, 0, 1), inst(2, 1, 6)]);
    assert_eq!(c.tiles[5], CanvasTile { texture_index: 6, visible: true });
    assert_eq!(c.tiles.iter().filter(|t| t.visible).count(), 1);
}

#[test]
fn capture_then_restore_round_trip() {
    let mut c = canvas(4, 3);
    c.tiles[1] = CanvasTile { texture_index: 3, visible: true };
    c.tiles[6] = CanvasTile { texture_index: 8, visible: true };
    c.tiles[11] = CanvasTile { texture_index: 1, visible: true };
    c.tiles[7] = CanvasTile { texture_index: 5, visible: false };
    let saved = c.capture_tiles();
    let mut loaded = c.clone();
    loaded.clear();
    assert!(loaded.tiles.iter().all(|t| !t.visible && t.texture_index == 0));
    loaded.restore_tiles(&saved);
    assert_eq!(loaded.capture_tiles(), saved);
    assert_eq!(loaded.tiles[7], CanvasTile { texture_index: 0, visible: false });
}

#[test]
fn scene_switch_saves_clears_and_loads() {
    let mut c = canvas(2, 2);
    c.tiles[0] = CanvasTile { texture_index: 3, visible: true };
    let mut canvas_slot = Some(c);
    let mut previous = Some(0usize);
    let incoming = vec![inst(1, 1, 9)];
    let saved = sync_tilemap_on_scene_switch(&mut canvas_slot, &mut previous, 1, true, Some(&incoming));
    assert_eq!(saved, Some(vec![inst(0, 0, 3)]));
    assert_eq!(previous, Some(1));
    let now = canvas_slot.as_ref().unwrap();
    assert_eq!(now.capture_tiles(), vec![inst(1, 1, 9)]);
    let again = sync_tilemap_on_scene_switch(&mut canvas_slot, &mut previous, 1, true, None);
    assert_eq!(again, None);
    assert_eq!(canvas_slot.as_ref().unwrap().capture_tiles(), vec![inst(1, 1, 9)]);
}

#[test]
fn first_scene_switch_saves_nothing() {
    let mut canvas_slot = Some(canvas(2, 2));
    let mut previous = None;
    let saved = sync_tilemap_on_scene_switch(&mut canvas_slot, &mut previous, 0, false, None);
    assert_eq!(saved, None);
    assert_eq!(previous, Some(0));
    let mut none: Option<TilemapCanvas> = None;
    let mut previous = Some(3);
    assert_eq!(sync_tilemap_on_scene_switch(&mut none, &mut previous, 0, true, None), None);
    assert!(none.is_none());
}

#[test]
fn pending_restore_waits_for_the_canvas() {
    let mut pending = PendingTilemapRestore { should_restore: true };
    let mut no_canvas: Option<TilemapCanvas> = None;
    let tiles = vec![inst(0, 1, 4)];
    assert!(restore_tilemap_from_level(&mut pending, &mut no_canvas, true, Some(&tiles)));
    assert!(pending.should_restore);
    let mut slot = Some(canvas(2, 2));
    assert!(restore_tilemap_from_level(&mut pending, &mut slot, true, Some(&tiles)));
    assert!(!pending.should_restore);
    assert_eq!(slot.as_ref().unwrap().capture_tiles(), tiles);
    assert!(!restore_tilemap_from_level(&mut pending, &mut slot, true, Some(&tiles)));
    let mut idle = PendingTilemapRestore::default();
    assert!(!restore_tilemap_from_level(&mut idle, &mut slot, true, None));
    let mut pending = PendingTilemapRestore { should_restore: true };
    assert!(!restore_tilemap_from_level(&mut pending, &mut slot, false, None));
    assert!(pending.should_restore);
}

#[test]
fn relative_asset_paths() {
    assert_eq!(convert_to_relative_asset_path("/home/me/game/assets/tiles/grass.png"), "tiles/grass.png");
    assert_eq!(convert_to_relative_asset_path("C:\\game\\assets\\tiles\\grass.png"), "tiles/grass.png");
    assert_eq!(convert_to_relative_asset_path("/tmp/grass.png"), "/tmp/grass.png");
    assert_eq!(convert_to_relative_asset_path("my_assets/assets/a.png"), "assets/a.png");
}

#[test]
fn saved_tilesets_keep_each_texture_once() {
    let sources = vec![
        source(1, "/p/assets/tiles/a.png"),
        source(2, "/p/assets/tiles/b.png"),
        source(3, "/p/assets/tiles/a.png"),
        source(4, "/elsewhere/c.png"),
    ];
    let saved = level_tilesets(&sources);
    let summary: Vec<(u32, &str)> = saved.iter().map(|t| (t.id, t.texture_path.as_str())).collect();
    assert_eq!(summary, vec![(1, "tiles/a.png"), (2, "tiles/b.png"), (4, "/elsewhere/c.png")]);
    assert_eq!(saved[0].identifier, "set1");
    assert_eq!((saved[0].tile_width, saved[0].tile_height), (16, 16));
}

#[test]
fn save_load_keys() {
    assert_eq!(handle_save_load(true, false, true, false, true, true), vec![SceneFileAction::Save]);
    assert_eq!(handle_save_load(true, false, true, false, true, false), vec![SceneFileAction::SaveAs]);
    assert_eq!(
        handle_save_load(true, true, true, false, true, true),
        vec![SceneFileAction::Save, SceneFileAction::SaveAs]
    );
    assert_eq!(handle_save_load(true, false, false, true, false, false), vec![SceneFileAction::Open]);
    assert_eq!(handle_save_load(false, true, true, true, true, true), vec![]);
    assert_eq!(handle_save_load(true, false, true, false, false, false), vec![]);
}

#[test]
fn auto_loader_picks_last_then_default_scene_once() {
    let mut loader = SceneAutoLoader::default();
    assert_eq!(loader.scene_to_load(false, Some("a.bscene"), None), None);
    assert_eq!(loader.scene_to_load(true, Some("a.bscene"), Some("main.bscene")), Some("a.bscene".to_string()));
    assert_eq!(loader.scene_to_load(true, None, Some("main.bscene")), Some("main.bscene".to_string()));
    loader.scene_loaded(false);
    assert!(!loader.has_loaded);
    loader.scene_loaded(true);
    assert_eq!(loader.scene_to_load(true, Some("a.bscene"), None), None);
    loader.reset_auto_loader_on_project_change(true);
    assert!(!loader.has_loaded);
    assert_eq!(loader.scene_to_load(true, None, None), None);
    assert!(loader.has_loaded);
}

#[test]
fn switching_back_shows_the_scene_as_left() {
    let mut c = canvas(3, 3);
    c.tiles[2] = CanvasTile { texture_index: 4, visible: true };
    c.tiles[8] = CanvasTile { texture_index: 6, visible: true };
    c.tiles[5] = CanvasTile { texture_index: 9, visible: false };
    let left = c.capture_tiles();
    let mut slot = Some(c);
    let mut previous = Some(0usize);
    let saved_a = sync_tilemap_on_scene_switch(&mut slot, &mut previous, 1, true, None).unwrap();
    assert_eq!(saved_a, left);
    slot.as_mut().unwrap().restore_tiles(&vec![inst(1, 1, 2)]);
    let saved_b = sync_tilemap_on_scene_switch(&mut slot, &mut previous, 0, true, Some(&saved_a));
    assert_eq!(saved_b, Some(vec![inst(1, 1, 2)]));
    let now = slot.unwrap();
    assert_eq!(now.capture_tiles(), left);
    assert_eq!(now.tiles[5], CanvasTile { texture_index: 0, visible: false });
}

#[test]
fn saved_scene_keeps_tiles_in_layer_zero() {
    let layers = saved_layers(vec![inst(1, 2, 3)]);
    assert_eq!(layers.len(), 1);
    assert_eq!(layers[0].id, 0);
    assert_eq!(layers[0].name, "Layer 0");
    assert!(layers[0].visible);
    assert_eq!(layers[0].tiles, vec![inst(1, 2, 3)]);
}

#[test]
fn capture_tilemap_state_records_canvas_tilesets_and_layer() {
    let mut c = canvas(3, 2);
    c.tiles[5] = CanvasTile { texture_index: 4, visible: true };
    c.tiles[1] = CanvasTile { texture_index: 2, visible: true };
    let sources = vec![
        source(1, "/home/me/game/assets/tiles/a.png"),
        source(2, "/home/me/game/assets/tiles/a.png"),
        source(3, "/home/me/game/assets/tiles/b.png"),
    ];
    let data = capture_tilemap_state(&c, &sources, Some(3));
    assert_eq!((data.map_width, data.map_height), (3, 2));
    assert_eq!(data.selected_tileset_id, Some(3));
    let ids: Vec<u32> = data.tilesets.iter().map(|t| t.id).collect();
    assert_eq!(ids, vec![1, 3]);
    assert_eq!(data.tilesets[1].texture_path, "tiles/b.png");
    assert_eq!(data.layers.len(), 1);
    assert_eq!((data.layers[0].id, data.layers[0].name.as_str(), data.layers[0].visible), (0, "Layer 0", true));
    assert_eq!(data.layers[0].tiles, vec![inst(1, 0, 2), inst(2, 1, 4)]);
}

#[test]
fn saving_records_last_opened_scene() {
    let mut last = Some("old.bscene".to_string());
    last_opened_after_save(&mut last, Some("forest.bscene".to_string()));
    assert_eq!(last, Some("forest.bscene".to_string()));
    last_opened_after_save(&mut last, None);
    assert_eq!(last, Some("forest.bscene".to_string()));
    let mut from_path = None;
    update_last_opened_scene(&mut from_path, "assets/levels/cave.bscene");
    assert_eq!(from_path, Some("cave.bscene".to_string()));
}

#[test]
fn mark_saved_with_stem_renames_when_there_is_a_stem() {
    let mut s = scene("Untitled", 4, true);
    s.mark_saved_with_stem("levels/forest.bscene", Some("forest".to_string()));
    assert_eq!(s.name, "forest");
    assert_eq!(s.file_path.as_deref(), Some("levels/forest.bscene"));
    assert!(!s.is_modified);
    s.is_modified = true;
    s.mark_saved_with_stem("levels/", None);
    assert_eq!(s.name, "forest");
    assert_eq!(s.file_path.as_deref(), Some("levels/"));
    assert!(!s.is_modified);
    assert_eq!(s.level_data, 4);
}

#[test]
fn scene_names_from_plain_file_names() {
    assert_eq!(OpenScene::from_file("levels/forest.bscene", 0u32).name, "forest");
    assert_eq!(OpenScene::from_file("cave", 0u32).name, "cave");
    assert_eq!(OpenScene::from_file("/maps/.hidden", 0u32).name, ".hidden");
    assert_eq!(OpenScene::from_file("maps/a.b.c", 0u32).name, "a.b");
    assert_eq!(OpenScene::from_file("maps/archive.", 0u32).name, "archive");
    let mut s = scene("Untitled", 1, true);
    s.mark_saved_to("deep/dir/boss.level.bscene");
    assert_eq!(s.name, "boss.level");
}

#[test]
fn last_opened_scene_takes_plain_file_name() {
    let mut last = None;
    update_last_opened_scene(&mut last, "cave.bscene");
    assert_eq!(last, Some("cave.bscene".to_string()));
    update_last_opened_scene(&mut last, "/home/me/levels/forest.bscene");
    assert_eq!(last, Some("forest.bscene".to_string()));
    update_last_opened_scene(&mut last, "levels/..");
    assert_eq!(last, Some("forest.bscene".to_string()));
}
