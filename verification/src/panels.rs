//! What clicks in the layers list and on the scene tabs do.

use vstd::prelude::*;
use crate::labels::{layer_name, new_layer_name, new_scene_name, untitled_tab_name};
use crate::layer_manager::{create_default_layer, LayerManager, LayerType, TileData};
use crate::scene_tabs::{active_after_click, scene_closed, OpenScene, OpenScenes};

verus! {

/// A click in the layers list.
#[derive(Debug, Clone, Copy, PartialEq, Eq, Structural)]
pub enum LayerPanelAction {
    /// "Add Layer": a new tile layer named after its index, drawn above
    /// the others (its z index is its index cast to `i32`, which wraps as
    /// such a cast does).
    AddLayer,
    /// The eye button of the layer at this index.
    ToggleVisibility(usize),
    /// The name of the layer at this index.
    Select(usize),
}

/// Whether the layer with id `id` shows; layers never set do.
pub open spec fn layer_shown(lm: LayerManager, id: u32) -> bool {
    if lm.layer_visibility@.contains_key(id) {
        lm.layer_visibility@[id]
    } else {
        true
    }
}

/// Whether `action` can be applied to `lm`: a new layer needs a free id
/// (and room in the list, which memory gives out long before).
pub open spec fn layer_action_ready(lm: LayerManager, action: LayerPanelAction) -> bool {
    action is AddLayer ==> lm.next_layer_id() < u32::MAX && lm.layers@.len() < usize::MAX
}

/// Applies a click in the layers list.
pub fn apply_layer_panel_action(layer_manager: &mut LayerManager, action: LayerPanelAction)
    requires
        layer_action_ready(*old(layer_manager), action),
    ensures
        match action {
            LayerPanelAction::AddLayer => {
                let n = old(layer_manager).layers@.len();
                let id = old(layer_manager).next_layer_id();
                let m = final(layer_manager).layers@[n as int].metadata;
                &&& final(layer_manager).layers@.len() == n + 1
                &&& forall|j: int| 0 <= j < n ==> #[trigger] final(layer_manager).layers@[j] == old(layer_manager).layers@[j]
                &&& final(layer_manager).layers@[n as int].tiles@ == Seq::<TileData>::empty()
                &&& m.id == id && m.level_id == 0 && m.identifier@ == layer_name(n)
                &&& m.layer_type == LayerType::Tiles && m.tileset_id is None
                &&& m.grid_size == 16 && m.width == 64 && m.height == 64 && m.z_index == n as i32
                &&& final(layer_manager).layer_visibility@ == old(layer_manager).layer_visibility@.insert(id, true)
                &&& final(layer_manager).active_layer == (if old(layer_manager).active_layer is None {
                    Some(n as usize)
                } else {
                    old(layer_manager).active_layer
                })
                &&& final(layer_manager).next_layer_id() == id + 1
            },
            LayerPanelAction::ToggleVisibility(index) => {
                &&& final(layer_manager).layers == old(layer_manager).layers
                &&& final(layer_manager).active_layer == old(layer_manager).active_layer
                &&& final(layer_manager).next_layer_id() == old(layer_manager).next_layer_id()
                &&& if index < old(layer_manager).layers@.len() {
                    let id = old(layer_manager).layers@[index as int].metadata.id;
                    final(layer_manager).layer_visibility@ == old(layer_manager).layer_visibility@.insert(
                        id,
                        !layer_shown(*old(layer_manager), id),
                    )
                } else {
                    final(layer_manager).layer_visibility == old(layer_manager).layer_visibility
                }
            },
            LayerPanelAction::Select(index) => {
                &&& final(layer_manager).layers == old(layer_manager).layers
                &&& final(layer_manager).layer_visibility == old(layer_manager).layer_visibility
                &&& final(layer_manager).next_layer_id() == old(layer_manager).next_layer_id()
                &&& final(layer_manager).active_layer == (if index < old(layer_manager).layers@.len() {
                    Some(index)
                } else {
                    old(layer_manager).active_layer
                })
            },
        },
{
    match action {
        LayerPanelAction::AddLayer => {
            let n = layer_manager.layers.len();
            let name = new_layer_name(n);
            let metadata = create_default_layer(LayerType::Tiles, name.as_str(), n as i32, None);
            layer_manager.add_layer(metadata);
        },
        LayerPanelAction::ToggleVisibility(index) => {
            if index < layer_manager.layers.len() {
                let id = layer_manager.layers[index].metadata.id;
                let visible = layer_manager.is_layer_visible(id);
                layer_manager.set_layer_visibility(id, !visible);
            }
        },
        LayerPanelAction::Select(index) => {
            layer_manager.set_active_layer(index);
        },
    }
}

/// The tabs after the clicks of a frame: the clicked tab (if any) becomes
/// active first, then the tab whose close button was clicked (if any) is
/// closed; closing the last tab resets it to a scene holding
/// `untitled_level`.
pub fn apply_scene_tab_clicks<L>(
    tabs: &mut OpenScenes<L>,
    clicked: Option<usize>,
    to_close: Option<usize>,
    untitled_level: L,
)
    requires
        to_close matches Some(i) ==> (old(tabs).scenes@.len() > 1 ==> i < old(tabs).scenes@.len()),
    ensures
        to_close is None ==> final(tabs).scenes == old(tabs).scenes && final(tabs).active_index == match clicked {
            Some(c) => active_after_click(*old(tabs), c),
            None => old(tabs).active_index,
        },
        to_close matches Some(i) ==> scene_closed(
            (OpenScenes {
                scenes: old(tabs).scenes,
                active_index: match clicked {
                    Some(c) => active_after_click(*old(tabs), c),
                    None => old(tabs).active_index,
                },
            }),
            *final(tabs),
            i,
            untitled_level,
        ),
        to_close is Some && final(tabs).scenes@.len() > 0 ==> final(tabs).active_index < final(tabs).scenes@.len(),
{
    if let Some(index) = clicked {
        tabs.set_active(index);
    }
    if let Some(index) = to_close {
        tabs.close_scene(index, untitled_level);
    }
}

/// Opens a new untitled tab holding `level_data` (named after the number it
/// gets) and makes it active.
pub fn add_untitled_tab<L>(tabs: &mut OpenScenes<L>, level_data: L)
    requires
        old(tabs).scenes@.len() < usize::MAX,
    ensures
        final(tabs).scenes@.len() == old(tabs).scenes@.len() + 1,
        forall|j: int| 0 <= j < old(tabs).scenes@.len() ==> #[trigger] final(tabs).scenes@[j] == old(tabs).scenes@[j],
        final(tabs).scenes@.last().name@ == untitled_tab_name(old(tabs).scenes@.len()),
        final(tabs).scenes@.last().file_path is None,
        final(tabs).scenes@.last().level_data == level_data,
        !final(tabs).scenes@.last().is_modified,
        final(tabs).active_index == old(tabs).scenes@.len(),
{
    let name = new_scene_name(tabs.scenes.len());
    tabs.add_scene(OpenScene::new(name, level_data));
}

} // verus!
