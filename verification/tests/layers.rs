use eryndor::layer_manager::{create_default_layer, LayerManager, LayerType, TileData};

fn tile(x: u32, y: u32, tile_id: u32) -> TileData {
    TileData { x, y, tile_id, flip_x: false, flip_y: false }
}

fn manager_with_layers(names: &[(&str, i32)]) -> LayerManager {
    let mut lm = LayerManager::new();
    for (name, z) in names {
        lm.add_layer(create_default_layer(LayerType::Tiles, name, *z, None));
    }
    lm
}

#[test]
fn default_layer_metadata() {
    let m = create_default_layer(LayerType::IntGrid, "Collision", 3, Some(7));
    assert_eq!(m.id, 0);
    assert_eq!(m.level_id, 0);
    assert_eq!(m.identifier, "Collision");
    assert_eq!(m.layer_type, LayerType::IntGrid);
    assert_eq!(m.tileset_id, Some(7));
    assert_eq!(m.grid_size, 16);
    assert_eq!(m.width, 64);
    assert_eq!(m.height, 64);
    assert_eq!(m.z_index, 3);
}

#[test]
fn add_layer_assigns_ids_and_activates_first() {
    let mut lm = LayerManager::default();
    assert!(lm.get_active_layer().is_none());
    let a = lm.add_layer(create_default_layer(LayerType::Tiles, "Ground", 0, None));
    let b = lm.add_layer(create_default_layer(LayerType::Tiles, "Decor", 1, None));
    assert_eq!((a, b), (0, 1));
    assert_eq!(lm.layers[0].metadata.id, 0);
    assert_eq!(lm.layers[1].metadata.id, 1);
    assert_eq!(lm.active_layer, Some(0));
    assert!(lm.is_layer_visible(0));
    assert!(lm.is_layer_visible(1));
    assert!(lm.layers[1].tiles.is_empty());
}

#[test]
fn visibility_defaults_to_visible() {
    let mut lm = manager_with_layers(&[("Ground", 0)]);
    assert!(lm.is_layer_visible(42));
    lm.set_layer_visibility(0, false);
    assert!(!lm.is_layer_visible(0));
    lm.set_layer_visibility(0, true);
    assert!(lm.is_layer_visible(0));
}

#[test]
fn remove_active_last_layer_moves_active_to_new_last() {
    let mut lm = manager_with_layers(&[("A", 0), ("B", 0), ("C", 0)]);
    lm.set_active_layer(2);
    lm.remove_layer(2);
    assert_eq!(lm.layers.len(), 2);
    assert_eq!(lm.active_layer, Some(1));
    assert!(lm.is_layer_visible(2));
}

#[test]
fn remove_active_middle_layer_keeps_index() {
    let mut lm = manager_with_layers(&[("A", 0), ("B", 0), ("C", 0)]);
    lm.set_active_layer(1);
    lm.remove_layer(1);
    assert_eq!(lm.active_layer, Some(1));
    assert_eq!(lm.layers[1].metadata.identifier, "C");
}

#[test]
fn remove_only_layer_clears_active() {
    let mut lm = manager_with_layers(&[("A", 0)]);
    lm.remove_layer(0);
    assert!(lm.layers.is_empty());
    assert_eq!(lm.active_layer, None);
    lm.remove_layer(5);
    assert!(lm.layers.is_empty());
}

#[test]
fn set_active_layer_ignores_missing_index() {
    let mut lm = manager_with_layers(&[("A", 0), ("B", 0)]);
    lm.set_active_layer(1);
    lm.set_active_layer(9);
    assert_eq!(lm.active_layer, Some(1));
}

#[test]
fn add_then_get_tile_reads_back_the_tile() {
    let mut lm = manager_with_layers(&[("Ground", 0)]);
    lm.add_tile(tile(3, 4, 9));
    assert_eq!(lm.get_tile_at(3, 4), Some(&tile(3, 4, 9)));
    assert_eq!(lm.get_tile_at(4, 3), None);
    lm.add_tile(tile(3, 4, 11));
    assert_eq!(lm.get_tile_at(3, 4), Some(&tile(3, 4, 11)));
    assert_eq!(lm.layers[0].tiles.len(), 1);
}

#[test]
fn remove_then_get_tile_reads_nothing() {
    let mut lm = manager_with_layers(&[("Ground", 0)]);
    lm.add_tile(tile(1, 1, 2));
    lm.add_tile(tile(2, 1, 3));
    lm.remove_tile(1, 1);
    assert_eq!(lm.get_tile_at(1, 1), None);
    assert_eq!(lm.get_tile_at(2, 1), Some(&tile(2, 1, 3)));
}

#[test]
fn tiles_go_to_the_active_layer_only() {
    let mut lm = manager_with_layers(&[("A", 0), ("B", 1)]);
    lm.set_active_layer(1);
    lm.add_tile(tile(0, 0, 5));
    assert!(lm.layers[0].tiles.is_empty());
    assert_eq!(lm.layers[1].tiles.len(), 1);
    let mut empty = LayerManager::new();
    empty.add_tile(tile(0, 0, 5));
    assert_eq!(empty.get_tile_at(0, 0), None);
}

#[test]
fn move_layer_up_then_down_restores_order() {
    let mut lm = manager_with_layers(&[("A", 0), ("B", 0), ("C", 0)]);
    lm.set_active_layer(2);
    lm.move_layer_up(2);
    let names: Vec<&str> = lm.layers.iter().map(|l| l.metadata.identifier.as_str()).collect();
    assert_eq!(names, vec!["A", "C", "B"]);
    assert_eq!(lm.layers[1].metadata.z_index, 1);
    assert_eq!(lm.layers[2].metadata.z_index, 0);
    assert_eq!(lm.active_layer, Some(1));
    lm.move_layer_down(1);
    let names: Vec<&str> = lm.layers.iter().map(|l| l.metadata.identifier.as_str()).collect();
    assert_eq!(names, vec!["A", "B", "C"]);
    let zs: Vec<i32> = lm.layers.iter().map(|l| l.metadata.z_index).collect();
    assert_eq!(zs, vec![0, 0, 0]);
    assert_eq!(lm.active_layer, Some(2));
}

#[test]
fn move_layer_up_raises_and_down_lowers_z_index() {
    let mut lm = manager_with_layers(&[("A", 3), ("B", -2), ("C", 7)]);
    lm.move_layer_up(1);
    let names: Vec<&str> = lm.layers.iter().map(|l| l.metadata.identifier.as_str()).collect();
    assert_eq!(names, vec!["B", "A", "C"]);
    let zs: Vec<i32> = lm.layers.iter().map(|l| l.metadata.z_index).collect();
    assert_eq!(zs, vec![-1, 3, 7]);
    lm.move_layer_down(1);
    let names: Vec<&str> = lm.layers.iter().map(|l| l.metadata.identifier.as_str()).collect();
    assert_eq!(names, vec!["B", "C", "A"]);
    let zs: Vec<i32> = lm.layers.iter().map(|l| l.metadata.z_index).collect();
    assert_eq!(zs, vec![-1, 7, 2]);
}

#[test]
fn move_layer_z_index_stays_at_extremes() {
    let mut lm = manager_with_layers(&[("A", 0), ("Max", i32::MAX), ("Min", i32::MIN)]);
    lm.move_layer_up(1);
    assert_eq!(lm.layers[0].metadata.identifier, "Max");
    assert_eq!(lm.layers[0].metadata.z_index, i32::MAX);
    lm.move_layer_down(1);
    assert_eq!(lm.layers[2].metadata.identifier, "A");
    assert_eq!(lm.layers[2].metadata.z_index, -1);
    lm.move_layer_down(0);
    lm.move_layer_down(1);
    assert_eq!(lm.layers[2].metadata.identifier, "Max");
    assert_eq!(lm.layers[2].metadata.z_index, i32::MAX - 2);
    lm.move_layer_down(0);
    assert_eq!(lm.layers[1].metadata.identifier, "Min");
    assert_eq!(lm.layers[1].metadata.z_index, i32::MIN);
}

#[test]
fn move_layer_up_then_down_keeps_passed_layer_index() {
    let mut lm = manager_with_layers(&[("A", 0), ("B", 0)]);
    lm.set_active_layer(0);
    lm.move_layer_up(1);
    lm.move_layer_down(0);
    let names: Vec<&str> = lm.layers.iter().map(|l| l.metadata.identifier.as_str()).collect();
    assert_eq!(names, vec!["A", "B"]);
    assert_eq!(lm.active_layer, Some(1));
}

#[test]
fn move_layer_at_edges_does_nothing() {
    let mut lm = manager_with_layers(&[("A", 0), ("B", 0)]);
    lm.move_layer_up(0);
    lm.move_layer_down(1);
    lm.move_layer_down(7);
    let names: Vec<&str> = lm.layers.iter().map(|l| l.metadata.identifier.as_str()).collect();
    assert_eq!(names, vec!["A", "B"]);
    let zs: Vec<i32> = lm.layers.iter().map(|l| l.metadata.z_index).collect();
    assert_eq!(zs, vec![0, 0]);
}

#[test]
fn sorted_layers_by_z_index_stable() {
    let lm = manager_with_layers(&[("Top", 5), ("Back", -1), ("MidA", 2), ("MidB", 2)]);
    let sorted: Vec<&str> = lm.get_sorted_layers().iter().map(|l| l.metadata.identifier.as_str()).collect();
    assert_eq!(sorted, vec!["Back", "MidA", "MidB", "Top"]);
}

#[test]
fn clear_resets_everything() {
    let mut lm = manager_with_layers(&[("A", 0), ("B", 0)]);
    lm.set_layer_visibility(1, false);
    lm.clear();
    assert!(lm.layers.is_empty());
    assert_eq!(lm.active_layer, None);
    assert!(lm.layer_visibility.is_empty());
    let index = lm.add_layer(create_default_layer(LayerType::Entities, "Again", 0, None));
    assert_eq!(index, 0);
    assert_eq!(lm.layers[0].metadata.id, 0);
}
