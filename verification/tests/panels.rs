use eryndor::editor_state::ToolbarButton;
use eryndor::labels::{
    active_layer_label, new_layer_name, new_scene_name, push_decimal, recent_project_label, save_state_label,
    scene_tab_label,
};
use eryndor::layer_manager::{LayerManager, LayerType};
use eryndor::panels::{add_untitled_tab, apply_layer_panel_action, apply_scene_tab_clicks, LayerPanelAction};
use eryndor::scene_tabs::{OpenScene, OpenScenes};

#[test]
fn decimal_numbers() {
    for (n, text) in [(0usize, "0"), (7, "7"), (10, "10"), (305, "305"), (1_000_000, "1000000")] {
        let mut s = String::from("#");
        push_decimal(&mut s, n);
        assert_eq!(s, format!("#{}", text));
    }
}

#[test]
fn names_and_labels() {
    assert_eq!(new_layer_name(0), "Layer 0");
    assert_eq!(new_layer_name(12), "Layer 12");
    assert_eq!(new_scene_name(1), "Untitled 2");
    assert_eq!(scene_tab_label("Castle", true), "● Castle");
    assert_eq!(scene_tab_label("Castle", false), "Castle");
    assert_eq!(active_layer_label("Ground"), "Active: Ground");
    assert_eq!(save_state_label(true), "● Modified");
    assert_eq!(save_state_label(false), "○ Saved");
    assert_eq!(recent_project_label(0, "game"), "1. game");
    assert_eq!(ToolbarButton::Select.label(), "↑ Select (V)");
    assert_eq!(ToolbarButton::Fill.hover_text(), "Bucket fill connected tiles\nShortcut: F");
}

#[test]
fn layer_panel_adds_named_layers() {
    let mut lm = LayerManager::new();
    apply_layer_panel_action(&mut lm, LayerPanelAction::AddLayer);
    apply_layer_panel_action(&mut lm, LayerPanelAction::AddLayer);
    assert_eq!(lm.layers.len(), 2);
    assert_eq!(lm.layers[1].metadata.identifier, "Layer 1");
    assert_eq!(lm.layers[1].metadata.z_index, 1);
    assert_eq!(lm.layers[1].metadata.layer_type, LayerType::Tiles);
    assert_eq!(lm.active_layer, Some(0));
}

#[test]
fn layer_panel_toggles_and_selects() {
    let mut lm = LayerManager::new();
    apply_layer_panel_action(&mut lm, LayerPanelAction::AddLayer);
    apply_layer_panel_action(&mut lm, LayerPanelAction::AddLayer);
    apply_layer_panel_action(&mut lm, LayerPanelAction::ToggleVisibility(1));
    assert!(!lm.is_layer_visible(1));
    apply_layer_panel_action(&mut lm, LayerPanelAction::ToggleVisibility(1));
    assert!(lm.is_layer_visible(1));
    apply_layer_panel_action(&mut lm, LayerPanelAction::ToggleVisibility(5));
    apply_layer_panel_action(&mut lm, LayerPanelAction::Select(1));
    assert_eq!(lm.active_layer, Some(1));
    apply_layer_panel_action(&mut lm, LayerPanelAction::Select(4));
    assert_eq!(lm.active_layer, Some(1));
}

#[test]
fn scene_tab_clicks_select_then_close() {
    let mut tabs = OpenScenes::with_untitled(0u32);
    add_untitled_tab(&mut tabs, 1);
    add_untitled_tab(&mut tabs, 2);
    assert_eq!(tabs.scenes[1].name, "Untitled 2");
    assert_eq!(tabs.scenes[2].name, "Untitled 3");
    assert_eq!(tabs.active_index, 2);
    apply_scene_tab_clicks(&mut tabs, Some(1), None, 9);
    assert_eq!(tabs.active_index, 1);
    apply_scene_tab_clicks(&mut tabs, Some(2), Some(0), 9);
    assert_eq!(tabs.scenes.len(), 2);
    assert_eq!(tabs.active_index, 1);
    assert_eq!(tabs.active_scene().map(|s| s.level_data), Some(2));
    let mut one = OpenScenes::with_untitled(5u32);
    one.scenes[0] = OpenScene::new("Keep".to_string(), 5);
    apply_scene_tab_clicks(&mut one, None, Some(0), 9);
    assert_eq!(one.scenes[0].name, "Untitled");
    assert_eq!(one.scenes[0].level_data, 9);
}
