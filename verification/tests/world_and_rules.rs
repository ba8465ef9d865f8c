use eryndor::component_registry::{ComponentCategory, ComponentRegistry, EditorComponentRegistry};
use eryndor::editor_state::{
    active_mode_label, cli_buttons_enabled, press_toolbar_button, toolbar_button_selected, CLIOutputPanel, EditorTool,
    PaintMode, PanelType, ToolbarButton,
};
use eryndor::game_rules::{
    assign_entity_ids, calculate_player_stats, hit_monster, intgrid_collision_cells, EntityKind, MonsterHit,
};
use eryndor::icons::{icon_label, icon_only, IconLabel, Icons};
use eryndor::world_tables::{
    tilemap_tile_by_layer, world_rows, EntityDefinitionExport, EntityInstanceExport, EnumDefinitionExport, IntGridCell,
    IntGridCellExport, LayerExport, TileExport, TilemapTile, TilesetExport, WorldExport,
};

fn export() -> WorldExport {
    WorldExport {
        version: "1.2".to_string(),
        tilesets: vec![TilesetExport {
            id: 3,
            identifier: "Grass".to_string(),
            texture_path: "tiles/grass.png".to_string(),
            tile_width: 16,
            tile_height: 16,
            columns: 8,
            rows: 4,
            spacing: 1,
            padding: 2,
        }],
        layers: vec![
            LayerExport {
                id: 10,
                level_id: 0,
                identifier: "Ground".to_string(),
                layer_type: "Tiles".to_string(),
                tileset_id: Some(3),
                grid_size: 16,
                width: 64,
                height: 32,
                z_index: 0,
                tiles: vec![
                    TileExport { x: 0, y: 0, tile_id: 5, flip_x: false, flip_y: true },
                    TileExport { x: 1, y: 0, tile_id: 6, flip_x: false, flip_y: false },
                ],
                intgrid_cells: vec![],
            },
            LayerExport {
                id: 11,
                level_id: 0,
                identifier: "Collision".to_string(),
                layer_type: "IntGrid".to_string(),
                tileset_id: None,
                grid_size: 8,
                width: 128,
                height: 64,
                z_index: -1,
                tiles: vec![TileExport { x: 4, y: 2, tile_id: 1, flip_x: true, flip_y: false }],
                intgrid_cells: vec![IntGridCellExport { x: 2, y: 2, value: 1 }],
            },
        ],
        entity_definitions: vec![EntityDefinitionExport {
            id: 1,
            identifier: "Goblin".to_string(),
            width: 16,
            height: 24,
            color: "#FF0000".to_string(),
            field_definitions: "[]".to_string(),
        }],
        entity_instances: vec![
            EntityInstanceExport { level_id: 0, entity_def_id: 1, field_values: "{\"health\":100}".to_string() },
            EntityInstanceExport { level_id: 2, entity_def_id: 1, field_values: "{}".to_string() },
        ],
        enum_definitions: vec![EnumDefinitionExport {
            id: 2,
            identifier: "Mood".to_string(),
            values: "[\"Friendly\"]".to_string(),
        }],
    }
}

#[test]
fn world_upload_rows() {
    let rows = world_rows(&export(), "{\"raw\":true}".to_string(), 1234);
    assert_eq!(rows.metadata.id, 0);
    assert_eq!(rows.metadata.version, "1.2");
    assert_eq!(rows.metadata.last_updated, 1234);
    assert_eq!(rows.metadata.editor_data, "{\"raw\":true}");
    assert_eq!(rows.tilesets.len(), 1);
    assert_eq!(rows.tilesets[0].identifier, "Grass");
    assert_eq!((rows.tilesets[0].columns, rows.tilesets[0].spacing, rows.tilesets[0].padding), (8, 1, 2));
    assert_eq!(
        rows.tiles,
        vec![
            TilemapTile { id: 0, layer_id: 10, x: 0, y: 0, tile_id: 5, flip_x: false, flip_y: true },
            TilemapTile { id: 0, layer_id: 10, x: 1, y: 0, tile_id: 6, flip_x: false, flip_y: false },
            TilemapTile { id: 0, layer_id: 11, x: 4, y: 2, tile_id: 1, flip_x: true, flip_y: false },
        ]
    );
    assert_eq!(rows.intgrid_cells, vec![IntGridCell { id: 0, layer_id: 11, x: 2, y: 2, value: 1 }]);
    assert_eq!(rows.entity_definitions[0].color, "#FF0000");
    assert_eq!(rows.enum_definitions[0].values, "[\"Friendly\"]");
}

#[test]
fn world_upload_layer_and_entity_instance_rows() {
    let rows = world_rows(&export(), String::new(), 0);
    assert_eq!(rows.layers.len(), 2);
    let l = &rows.layers[0];
    assert_eq!((l.id, l.level_id, l.identifier.as_str(), l.layer_type.as_str()), (10, 0, "Ground", "Tiles"));
    assert_eq!((l.tileset_id, l.grid_size, l.width, l.height, l.z_index), (Some(3), 16, 64, 32, 0));
    let l = &rows.layers[1];
    assert_eq!((l.id, l.identifier.as_str(), l.layer_type.as_str()), (11, "Collision", "IntGrid"));
    assert_eq!((l.tileset_id, l.grid_size, l.width, l.height, l.z_index), (None, 8, 128, 64, -1));
    assert_eq!(rows.entity_instances.len(), 2);
    let e = &rows.entity_instances[0];
    assert_eq!((e.id, e.level_id, e.entity_def_id, e.field_values.as_str()), (0, 0, 1, "{\"health\":100}"));
    let e = &rows.entity_instances[1];
    assert_eq!((e.id, e.level_id, e.entity_def_id, e.field_values.as_str()), (0, 2, 1, "{}"));
}

#[test]
fn tiles_filtered_by_layer() {
    let rows = world_rows(&export(), String::new(), 0);
    let layer10 = tilemap_tile_by_layer(&rows.tiles, 10);
    assert_eq!(layer10.len(), 2);
    assert!(layer10.iter().all(|t| t.layer_id == 10));
    assert!(tilemap_tile_by_layer(&rows.tiles, 99).is_empty());
}

#[test]
fn intgrid_cells_with_value_one_collide() {
    let cells = intgrid_collision_cells(&vec![0, 1, 1, 0, 2, 1], 3);
    assert_eq!(cells, vec![(1, 0), (2, 0), (2, 1)]);
    assert_eq!(intgrid_collision_cells(&vec![0, 0, 2], 0), vec![]);
    assert_eq!(intgrid_collision_cells(&vec![0, 0, 0, 0, 1], -2), vec![(0, -2)]);
}

#[test]
fn attacks_wound_then_kill() {
    assert_eq!(hit_monster(50), MonsterHit::Wounded(40));
    assert_eq!(hit_monster(11), MonsterHit::Wounded(1));
    assert_eq!(hit_monster(10), MonsterHit::Killed);
    assert_eq!(hit_monster(3), MonsterHit::Killed);
}

#[test]
fn entity_ids_count_per_kind() {
    let kinds = vec![
        EntityKind::Npc,
        EntityKind::Resource,
        EntityKind::Npc,
        EntityKind::Player,
        EntityKind::SpawnPoint,
        EntityKind::Interactive,
        EntityKind::Resource,
    ];
    assert_eq!(
        assign_entity_ids(&kinds),
        vec![Some(0), Some(0), Some(1), None, Some(0), Some(0), Some(1)]
    );
}

#[test]
fn player_circle_stats() {
    assert_eq!(calculate_player_stats(&vec![1, 2, 1, 1, 3], 1), (30, 3));
    assert_eq!(calculate_player_stats(&vec![2, 3], 1), (0, 0));
}

#[test]
fn component_registry_contents() {
    let registry = ComponentRegistry::new();
    let core: Vec<&str> = registry.get_by_category(ComponentCategory::Core).iter().map(|c| c.name).collect();
    assert_eq!(core, vec!["Transform", "Name", "Visibility"]);
    let ui: Vec<&str> = registry.get_by_category(ComponentCategory::UI).iter().map(|c| c.name).collect();
    assert_eq!(ui, vec!["Node", "Button", "Text", "BackgroundColor"]);
    assert!(registry.get_by_category(ComponentCategory::Audio).is_empty());
    assert_eq!(registry.categories().len(), 7);
    assert_eq!(ComponentRegistry::category_name(ComponentCategory::Animation), "Animation");
    let editor = EditorComponentRegistry::default();
    assert_eq!(editor.registry.get_by_category(ComponentCategory::Rendering).len(), 2);
}

#[test]
fn toolbar_buttons_choose_tool_and_mode() {
    let mut tool = EditorTool::default();
    let mut mode = PaintMode::Line;
    assert_eq!(tool, EditorTool::Select);
    press_toolbar_button(&mut tool, &mut mode, ToolbarButton::Fill);
    assert_eq!((tool, mode), (EditorTool::Platform, PaintMode::BucketFill));
    assert!(toolbar_button_selected(tool, mode, ToolbarButton::Fill));
    assert!(!toolbar_button_selected(tool, mode, ToolbarButton::Brush));
    assert_eq!(active_mode_label(tool, mode), "Fill");
    press_toolbar_button(&mut tool, &mut mode, ToolbarButton::Eyedropper);
    assert_eq!((tool, mode), (EditorTool::Eyedropper, PaintMode::BucketFill));
    assert_eq!(active_mode_label(tool, mode), "Eyedropper");
    assert_eq!(active_mode_label(EditorTool::EntityPlace, mode), "Entity");
    assert_eq!(PanelType::Layers.title(), "Layers");
    assert!(cli_buttons_enabled(true, false));
    assert!(!cli_buttons_enabled(true, true));
    assert!(!cli_buttons_enabled(false, false));
}

#[test]
fn cli_output_panel_opens_on_output() {
    let mut panel = CLIOutputPanel::default();
    assert!(!panel.visible && panel.auto_scroll);
    assert!(!panel.update_visibility(false, false));
    assert!(panel.update_visibility(false, true));
    panel.visible = false;
    assert!(panel.update_visibility(true, false));
}

#[test]
fn icon_labels() {
    assert_eq!(icon_label(Icons::SAVE, "Save"), "💾 Save");
    assert_eq!(icon_only(Icons::PLAY), "▶");
    assert_eq!("Open".with_icon(Icons::FOLDER_OPEN), "📁 Open");
    assert_eq!("Build".to_string().with_icon(Icons::BUILD), "🔨 Build");
}
