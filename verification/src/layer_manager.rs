//! Tile layers of a level: the layer list, the active layer, per-layer
//! visibility, and the tiles painted on each layer.

use std::collections::HashMap;
use vstd::prelude::*;
use vstd::string::StringExecFns;

verus! {

broadcast use vstd::std_specs::hash::group_hash_axioms;

/// Kinds of layer a level can hold.
#[derive(Clone, Copy, Debug, PartialEq, Eq, Structural)]
pub enum LayerType {
    Tiles,
    IntGrid,
    Entities,
    AutoLayer,
}

/// One painted tile: its grid cell, the tile index in the tileset, and flips.
#[derive(Clone, Copy, Debug, PartialEq, Eq, Structural)]
pub struct TileData {
    pub x: u32,
    pub y: u32,
    pub tile_id: u32,
    pub flip_x: bool,
    pub flip_y: bool,
}

/// Description of a layer. Opacity and parallax factors, which no editing
/// rule reads, are kept by the rendering side.
#[derive(Clone, Debug)]
pub struct LayerMetadata {
    pub id: u32,
    pub level_id: u32,
    pub identifier: String,
    pub layer_type: LayerType,
    pub tileset_id: Option<u32>,
    pub grid_size: u32,
    pub width: u32,
    pub height: u32,
    pub z_index: i32,
}

/// A layer with its painted tiles.
#[derive(Clone, Debug)]
pub struct LayerData {
    pub metadata: LayerMetadata,
    pub tiles: Vec<TileData>,
}

impl LayerData {
    /// A layer with no tiles yet.
    pub fn new(metadata: LayerMetadata) -> (r: LayerData)
        ensures
            r.metadata == metadata,
            r.tiles@ == Seq::<TileData>::empty(),
    {
        LayerData { metadata, tiles: Vec::new() }
    }
}

/// Whether tile `t` lies on cell `(x, y)`.
pub open spec fn is_at(t: TileData, x: u32, y: u32) -> bool {
    t.x == x && t.y == y
}

/// The tile that a lookup of cell `(x, y)` finds in `tiles`: the first one
/// on that cell, if any.
pub open spec fn tile_at(tiles: Seq<TileData>, x: u32, y: u32) -> Option<TileData>
    decreases tiles.len(),
{
    if tiles.len() == 0 {
        None
    } else {
        let earlier = tile_at(tiles.drop_last(), x, y);
        if earlier is Some {
            earlier
        } else if is_at(tiles.last(), x, y) {
            Some(tiles.last())
        } else {
            None
        }
    }
}

/// `tiles` without any tile on cell `(x, y)`, the others in their order.
pub open spec fn without_cell(tiles: Seq<TileData>, x: u32, y: u32) -> Seq<TileData> {
    tiles.filter(not_at(x, y))
}

/// The test that keeps the tiles that are not on cell `(x, y)`.
pub open spec fn not_at(x: u32, y: u32) -> spec_fn(TileData) -> bool {
    |t: TileData| !is_at(t, x, y)
}

/// `tiles` after painting `tile`: the tiles on its cell are dropped and `tile`
/// goes last.
pub open spec fn with_tile(tiles: Seq<TileData>, tile: TileData) -> Seq<TileData> {
    without_cell(tiles, tile.x, tile.y).push(tile)
}

pub proof fn lemma_tile_at_push(s: Seq<TileData>, t: TileData, x: u32, y: u32)
    ensures
        tile_at(s.push(t), x, y) == (if tile_at(s, x, y) is Some {
            tile_at(s, x, y)
        } else if is_at(t, x, y) {
            Some(t)
        } else {
            None
        }),
{
    assert(s.push(t).drop_last() =~= s);
}

pub proof fn lemma_tile_at_found(s: Seq<TileData>, x: u32, y: u32)
    ensures
        tile_at(s, x, y) matches Some(t) ==> is_at(t, x, y) && s.contains(t),
        tile_at(s, x, y) is None ==> forall|i: int| 0 <= i < s.len() ==> !is_at(#[trigger] s[i], x, y),
    decreases s.len(),
{
    if s.len() > 0 {
        lemma_tile_at_found(s.drop_last(), x, y);
        if let Some(t) = tile_at(s.drop_last(), x, y) {
            let i = choose|i: int| 0 <= i < s.drop_last().len() && s.drop_last()[i] == t;
            assert(s[i] == t);
        } else {
            assert(s.last() == s[s.len() - 1]);
            assert forall|i: int| 0 <= i < s.len() && tile_at(s, x, y) is None implies !is_at(#[trigger] s[i], x, y) by {
                if i < s.len() - 1 {
                    assert(s.drop_last()[i] == s[i]);
                }
            }
        }
    }
}

pub proof fn lemma_tile_at_without(s: Seq<TileData>, px: u32, py: u32, x: u32, y: u32)
    ensures
        tile_at(without_cell(s, px, py), x, y) == (if x == px && y == py {
            None
        } else {
            tile_at(s, x, y)
        }),
    decreases s.len(),
{
    let pred = not_at(px, py);
    if s.len() == 0 {
        reveal(Seq::filter);
        assert(s.filter(pred) =~= s);
    } else {
        let init = s.drop_last();
        lemma_tile_at_without(init, px, py, x, y);
        assert(init.push(s.last()) =~= s);
        init.lemma_filter_push(s.last(), pred);
        lemma_tile_at_push(init.filter(pred), s.last(), x, y);
        lemma_tile_at_push(init, s.last(), x, y);
    }
}

/// Painting a tile puts it on its cell and leaves every other cell as it was.
pub proof fn lemma_tile_at_with_tile(s: Seq<TileData>, tile: TileData, x: u32, y: u32)
    ensures
        tile_at(with_tile(s, tile), x, y) == (if x == tile.x && y == tile.y {
            Some(tile)
        } else {
            tile_at(s, x, y)
        }),
{
    lemma_tile_at_without(s, tile.x, tile.y, x, y);
    lemma_tile_at_push(without_cell(s, tile.x, tile.y), tile, x, y);
}

pub proof fn lemma_tile_at_prefix(s: Seq<TileData>, i: int, x: u32, y: u32)
    requires
        0 <= i <= s.len(),
        tile_at(s.take(i), x, y) is Some,
    ensures
        tile_at(s, x, y) == tile_at(s.take(i), x, y),
    decreases s.len() - i,
{
    if i == s.len() {
        assert(s.take(i) =~= s);
    } else {
        assert(s.drop_last().take(i) =~= s.take(i));
        lemma_tile_at_prefix(s.drop_last(), i, x, y);
        lemma_tile_at_push(s.drop_last(), s.last(), x, y);
        assert(s.drop_last().push(s.last()) =~= s);
    }
}

/// The tiles of `tiles` that are not on cell `(x, y)`, in their order.
fn tiles_without_cell(tiles: &Vec<TileData>, x: u32, y: u32) -> (r: Vec<TileData>)
    ensures
        r@ == without_cell(tiles@, x, y),
{
    let mut r: Vec<TileData> = Vec::new();
    let mut i: usize = 0;
    while i < tiles.len()
        invariant
            i <= tiles.len(),
            r@ == tiles@.take(i as int).filter(not_at(x, y)),
        decreases tiles.len() - i,
    {
        let t = tiles[i];
        proof {
            assert(tiles@.take(i + 1) =~= tiles@.take(i as int).push(t));
            tiles@.take(i as int).lemma_filter_push(t, not_at(x, y));
        }
        if !(t.x == x && t.y == y) {
            r.push(t);
        }
        i = i + 1;
    }
    assert(tiles@.take(tiles.len() as int) =~= tiles@);
    r
}

/// The first tile of `tiles` on cell `(x, y)`.
pub fn find_tile(tiles: &Vec<TileData>, x: u32, y: u32) -> (r: Option<&TileData>)
    ensures
        r == (match tile_at(tiles@, x, y) {
            Some(t) => Some(&t),
            None => None,
        }),
{
    let mut i: usize = 0;
    while i < tiles.len()
        invariant
            i <= tiles.len(),
            tile_at(tiles@.take(i as int), x, y) is None,
        decreases tiles.len() - i,
    {
        proof {
            assert(tiles@.take(i + 1) =~= tiles@.take(i as int).push(tiles@[i as int]));
            lemma_tile_at_push(tiles@.take(i as int), tiles@[i as int], x, y);
        }
        if tiles[i].x == x && tiles[i].y == y {
            proof {
                lemma_tile_at_prefix(tiles@, i + 1, x, y);
            }
            return Some(&tiles[i]);
        }
        i = i + 1;
    }
    assert(tiles@.take(tiles.len() as int) =~= tiles@);
    None
}

/// Paints `tile` onto `tiles`, replacing whatever was on its cell.
pub fn put_tile(tiles: &mut Vec<TileData>, tile: TileData)
    ensures
        final(tiles)@ == with_tile(old(tiles)@, tile),
{
    let mut kept = tiles_without_cell(tiles, tile.x, tile.y);
    kept.push(tile);
    *tiles = kept;
}

/// Removes every tile on cell `(x, y)` from `tiles`.
pub fn clear_cell(tiles: &mut Vec<TileData>, x: u32, y: u32)
    ensures
        final(tiles)@ == without_cell(old(tiles)@, x, y),
{
    let kept = tiles_without_cell(tiles, x, y);
    *tiles = kept;
}


/// `new` is `old` with the tiles of layer `i` replaced by `tiles` and
/// nothing else changed.
pub open spec fn layer_tiles_replaced(
    old: Seq<LayerData>,
    new: Seq<LayerData>,
    i: int,
    tiles: Seq<TileData>,
) -> bool {
    &&& new.len() == old.len()
    &&& 0 <= i < old.len()
    &&& forall|j: int| 0 <= j < old.len() && j != i ==> #[trigger] new[j] == old[j]
    &&& new[i].metadata == old[i].metadata
    &&& new[i].tiles@ == tiles
}

/// `new` is `old` after painting `tile` on the active layer: only the tiles
/// of the active layer change, and only on the tile's cell.
pub open spec fn tile_added(old: LayerManager, new: LayerManager, tile: TileData) -> bool {
    &&& new.active_layer == old.active_layer
    &&& new.layer_visibility == old.layer_visibility
    &&& new.next_id == old.next_id
    &&& match old.active_index() {
        Some(i) => layer_tiles_replaced(old.layers@, new.layers@, i, with_tile(old.layers@[i].tiles@, tile)),
        None => new.layers == old.layers,
    }
}

/// `new` is `old` with the tiles on cell `(x, y)` of the active layer
/// removed: nothing else changes.
pub open spec fn tile_removed(old: LayerManager, new: LayerManager, x: u32, y: u32) -> bool {
    &&& new.active_layer == old.active_layer
    &&& new.layer_visibility == old.layer_visibility
    &&& new.next_id == old.next_id
    &&& match old.active_index() {
        Some(i) => layer_tiles_replaced(old.layers@, new.layers@, i, without_cell(old.layers@[i].tiles@, x, y)),
        None => new.layers == old.layers,
    }
}

/// `z` one step higher in the drawing order, staying at the largest z
/// index.
pub open spec fn z_raised(z: i32) -> i32 {
    if z < i32::MAX {
        (z + 1) as i32
    } else {
        z
    }
}

/// `z` one step lower in the drawing order, staying at the smallest z
/// index.
pub open spec fn z_lowered(z: i32) -> i32 {
    if z > i32::MIN {
        (z - 1) as i32
    } else {
        z
    }
}

/// `layer` with its z index set to `z`.
pub open spec fn with_z(layer: LayerData, z: i32) -> LayerData {
    LayerData {
        metadata: LayerMetadata {
            id: layer.metadata.id,
            level_id: layer.metadata.level_id,
            identifier: layer.metadata.identifier,
            layer_type: layer.metadata.layer_type,
            tileset_id: layer.metadata.tileset_id,
            grid_size: layer.metadata.grid_size,
            width: layer.metadata.width,
            height: layer.metadata.height,
            z_index: z,
        },
        tiles: layer.tiles,
    }
}

/// `new` is `old` after moving the layer at `index` one place up in the
/// z-order: it swaps places with the layer before it and its z index is
/// raised by one (it stays at the largest z index); the active index
/// follows the moved layer. Nothing changes for the first layer or an index
/// past the end.
pub open spec fn moved_up(old: LayerManager, new: LayerManager, index: usize) -> bool {
    &&& new.layer_visibility == old.layer_visibility
    &&& new.next_id == old.next_id
    &&& if 0 < index < old.layers@.len() {
        &&& new.layers@ == old.layers@.update(
            index - 1,
            with_z(old.layers@[index as int], z_raised(old.layers@[index as int].metadata.z_index)),
        ).update(index as int, old.layers@[index - 1])
        &&& new.active_layer == (if old.active_layer == Some(index) {
            Some((index - 1) as usize)
        } else {
            old.active_layer
        })
    } else {
        new == old
    }
}

/// `new` is `old` after moving the layer at `index` one place down in the
/// z-order: it swaps places with the layer after it and its z index is
/// lowered by one (it stays at the smallest z index); the active index
/// follows the moved layer. Nothing changes for the last layer or an index
/// past the end.
pub open spec fn moved_down(old: LayerManager, new: LayerManager, index: usize) -> bool {
    &&& new.layer_visibility == old.layer_visibility
    &&& new.next_id == old.next_id
    &&& if index + 1 < old.layers@.len() {
        &&& new.layers@ == old.layers@.update(index as int, old.layers@[index + 1]).update(
            index + 1,
            with_z(old.layers@[index as int], z_lowered(old.layers@[index as int].metadata.z_index)),
        )
        &&& new.active_layer == (if old.active_layer == Some(index) {
            Some((index + 1) as usize)
        } else {
            old.active_layer
        })
    } else {
        new == old
    }
}

/// `metadata` with its id set to `id`.
pub open spec fn with_id(metadata: LayerMetadata, id: u32) -> LayerMetadata {
    LayerMetadata {
        id,
        level_id: metadata.level_id,
        identifier: metadata.identifier,
        layer_type: metadata.layer_type,
        tileset_id: metadata.tileset_id,
        grid_size: metadata.grid_size,
        width: metadata.width,
        height: metadata.height,
        z_index: metadata.z_index,
    }
}

/// `order` lists every index of `layers` once, by increasing z index, layers
/// with equal z index keeping their order.
pub open spec fn is_z_order(layers: Seq<LayerData>, order: Seq<int>) -> bool {
    &&& order.len() == layers.len()
    &&& forall|k: int| 0 <= k < order.len() ==> 0 <= #[trigger] order[k] < layers.len()
    &&& order.no_duplicates()
    &&& forall|k1: int, k2: int|
        0 <= k1 < k2 < order.len() ==> z_before(layers, #[trigger] order[k1], #[trigger] order[k2])
}

/// Layer `i` is drawn before layer `j`: lower z index, or equal z index and
/// earlier in the list.
pub open spec fn z_before(layers: Seq<LayerData>, i: int, j: int) -> bool {
    layers[i].metadata.z_index < layers[j].metadata.z_index || (layers[i].metadata.z_index
        == layers[j].metadata.z_index && i < j)
}

/// The layers of the level being edited.
pub struct LayerManager {
    /// All layers of the current level.
    pub layers: Vec<LayerData>,
    /// Index of the layer that painting applies to.
    pub active_layer: Option<usize>,
    /// Visibility of each layer, by layer id; a layer missing here is visible.
    pub layer_visibility: HashMap<u32, bool>,
    /// The id that the next added layer gets.
    pub next_id: u32,
}

impl LayerManager {
    /// The id that the next added layer gets.
    pub open spec fn next_layer_id(&self) -> u32 {
        self.next_id
    }

    /// The index of the active layer, when it names an existing layer.
    pub open spec fn active_index(&self) -> Option<int> {
        match self.active_layer {
            Some(i) => if i < self.layers@.len() {
                Some(i as int)
            } else {
                None
            },
            None => None,
        }
    }

    /// The tiles of the active layer, when there is one.
    pub open spec fn active_tiles(&self) -> Option<Seq<TileData>> {
        match self.active_index() {
            Some(i) => Some(self.layers@[i].tiles@),
            None => None,
        }
    }

    /// An empty manager: no layers, no active layer, ids start at 0.
    pub fn new() -> (r: LayerManager)
        ensures
            r.layers@ == Seq::<LayerData>::empty(),
            r.active_layer is None,
            r.layer_visibility@ == Map::<u32, bool>::empty(),
            r.next_layer_id() == 0,
    {
        LayerManager {
            layers: Vec::new(),
            active_layer: None,
            layer_visibility: HashMap::new(),
            next_id: 0,
        }
    }

    /// Adds a layer with the next free id and no tiles, marks it visible,
    /// makes it active when no layer was active, and returns its index.
    pub fn add_layer(&mut self, metadata: LayerMetadata) -> (index: usize)
        requires
            old(self).next_layer_id() < u32::MAX,
            old(self).layers@.len() < usize::MAX,
        ensures
            index == old(self).layers@.len(),
            final(self).layers@.len() == old(self).layers@.len() + 1,
            forall|j: int| 0 <= j < index ==> #[trigger] final(self).layers@[j] == old(self).layers@[j],
            final(self).layers@[index as int].metadata == with_id(metadata, old(self).next_layer_id()),
            final(self).layers@[index as int].tiles@ == Seq::<TileData>::empty(),
            final(self).layer_visibility@ == old(self).layer_visibility@.insert(old(self).next_layer_id(), true),
            final(self).active_layer == (if old(self).active_layer is None {
                Some(index)
            } else {
                old(self).active_layer
            }),
            final(self).next_layer_id() == old(self).next_layer_id() + 1,
    {
        let id = self.next_id;
        let mut metadata = metadata;
        metadata.id = id;
        self.next_id = self.next_id + 1;
        let index = self.layers.len();
        self.layers.push(LayerData::new(metadata));
        self.layer_visibility.insert(id, true);
        if self.active_layer.is_none() {
            self.active_layer = Some(index);
        }
        index
    }

    /// Removes the layer at `index`, if there is one, and forgets its
    /// visibility. When it was the active layer, the layer now at the same
    /// index (or the last one) becomes active, or none if no layer is left.
    pub fn remove_layer(&mut self, index: usize)
        ensures
            index >= old(self).layers@.len() ==> *final(self) == *old(self),
            index < old(self).layers@.len() ==> {
                let removed_id = old(self).layers@[index as int].metadata.id;
                &&& final(self).layers@ == old(self).layers@.remove(index as int)
                &&& final(self).layer_visibility@ == old(self).layer_visibility@.remove(removed_id)
                &&& final(self).next_layer_id() == old(self).next_layer_id()
                &&& final(self).active_layer == (if old(self).active_layer == Some(index) {
                    if final(self).layers@.len() == 0 {
                        None
                    } else if index < final(self).layers@.len() {
                        Some(index)
                    } else {
                        Some((final(self).layers@.len() - 1) as usize)
                    }
                } else {
                    old(self).active_layer
                })
            },
    {
        if index < self.layers.len() {
            let layer_id = self.layers[index].metadata.id;
            self.layers.remove(index);
            self.layer_visibility.remove(&layer_id);
            if self.active_layer == Some(index) {
                self.active_layer = if self.layers.len() == 0 {
                    None
                } else if index < self.layers.len() - 1 {
                    Some(index)
                } else {
                    Some(self.layers.len() - 1)
                };
            }
        }
    }

    /// The layer at `index`, if there is one.
    pub fn get_layer(&self, index: usize) -> (r: Option<&LayerData>)
        ensures
            r == (if index < self.layers@.len() {
                Some(&self.layers@[index as int])
            } else {
                None
            }),
    {
        if index < self.layers.len() {
            Some(&self.layers[index])
        } else {
            None
        }
    }

    /// The layer at `index` for editing, if there is one.
    pub fn get_layer_mut(&mut self, index: usize) -> (r: Option<&mut LayerData>)
        ensures
            r is Some <==> index < old(self).layers@.len(),
            r is None ==> *final(self) == *old(self),
            r matches Some(layer) ==> {
                &&& *layer == old(self).layers@[index as int]
                &&& final(self).layers@ == old(self).layers@.update(index as int, *final(layer))
                &&& final(self).active_layer == old(self).active_layer
                &&& final(self).layer_visibility == old(self).layer_visibility
                &&& final(self).next_layer_id() == old(self).next_layer_id()
            },
    {
        if index < self.layers.len() {
            Some(&mut self.layers[index])
        } else {
            None
        }
    }

    /// The active layer, if it names an existing layer.
    pub fn get_active_layer(&self) -> (r: Option<&LayerData>)
        ensures
            r == (match self.active_index() {
                Some(i) => Some(&self.layers@[i]),
                None => None,
            }),
    {
        match self.active_layer {
            Some(i) => self.get_layer(i),
            None => None,
        }
    }

    /// The active layer for editing, if it names an existing layer.
    pub fn get_active_layer_mut(&mut self) -> (r: Option<&mut LayerData>)
        ensures
            r is Some <==> old(self).active_index() is Some,
            r is None ==> *final(self) == *old(self),
            r matches Some(layer) ==> {
                let i = old(self).active_index()->0;
                &&& *layer == old(self).layers@[i]
                &&& final(self).layers@ == old(self).layers@.update(i, *final(layer))
                &&& final(self).active_layer == old(self).active_layer
                &&& final(self).layer_visibility == old(self).layer_visibility
                &&& final(self).next_layer_id() == old(self).next_layer_id()
            },
    {
        match self.active_layer {
            Some(i) => self.get_layer_mut(i),
            None => None,
        }
    }

    /// Makes the layer at `index` active, if there is one.
    pub fn set_active_layer(&mut self, index: usize)
        ensures
            final(self).layers == old(self).layers,
            final(self).layer_visibility == old(self).layer_visibility,
            final(self).next_layer_id() == old(self).next_layer_id(),
            final(self).active_layer == (if index < old(self).layers@.len() {
                Some(index)
            } else {
                old(self).active_layer
            }),
    {
        if index < self.layers.len() {
            self.active_layer = Some(index);
        }
    }

    /// Records whether the layer with id `layer_id` is visible.
    pub fn set_layer_visibility(&mut self, layer_id: u32, visible: bool)
        ensures
            final(self).layers == old(self).layers,
            final(self).active_layer == old(self).active_layer,
            final(self).next_layer_id() == old(self).next_layer_id(),
            final(self).layer_visibility@ == old(self).layer_visibility@.insert(layer_id, visible),
    {
        self.layer_visibility.insert(layer_id, visible);
    }

    /// Whether the layer with id `layer_id` is visible; layers never set are.
    pub fn is_layer_visible(&self, layer_id: u32) -> (r: bool)
        ensures
            r == (if self.layer_visibility@.contains_key(layer_id) {
                self.layer_visibility@[layer_id]
            } else {
                true
            }),
    {
        match self.layer_visibility.get(&layer_id) {
            Some(v) => *v,
            None => true,
        }
    }

    /// Moves the layer at `index` up in the z-order: it swaps places with
    /// the layer before it and its z index is raised by one. The active
    /// layer follows it when it was the moved one.
    pub fn move_layer_up(&mut self, index: usize)
        ensures
            moved_up(*old(self), *final(self), index),
    {
        if index > 0 && index < self.layers.len() {
            let mut moved = self.layers.remove(index);
            if moved.metadata.z_index < i32::MAX {
                moved.metadata.z_index = moved.metadata.z_index + 1;
            }
            proof {
                assert(moved == with_z(old(self).layers@[index as int], z_raised(old(self).layers@[index as int].metadata.z_index)));
            }
            self.layers.insert(index - 1, moved);
            proof {
                assert(self.layers@ =~= old(self).layers@.update(
                    index - 1,
                    with_z(old(self).layers@[index as int], z_raised(old(self).layers@[index as int].metadata.z_index)),
                ).update(index as int, old(self).layers@[index - 1]));
            }
            if self.active_layer == Some(index) {
                self.active_layer = Some(index - 1);
            }
        }
    }

    /// Moves the layer at `index` down in the z-order: it swaps places with
    /// the layer after it and its z index is lowered by one. The active
    /// layer follows it when it was the moved one.
    pub fn move_layer_down(&mut self, index: usize)
        ensures
            moved_down(*old(self), *final(self), index),
    {
        let len = self.layers.len();
        let last = if len > 0 { len - 1 } else { 0 };
        if index < last {
            let mut moved = self.layers.remove(index);
            if moved.metadata.z_index > i32::MIN {
                moved.metadata.z_index = moved.metadata.z_index - 1;
            }
            proof {
                assert(moved == with_z(old(self).layers@[index as int], z_lowered(old(self).layers@[index as int].metadata.z_index)));
            }
            self.layers.insert(index + 1, moved);
            proof {
                assert(self.layers@ =~= old(self).layers@.update(index as int, old(self).layers@[index + 1]).update(
                    index + 1,
                    with_z(old(self).layers@[index as int], z_lowered(old(self).layers@[index as int].metadata.z_index)),
                ));
            }
            if self.active_layer == Some(index) {
                self.active_layer = Some(index + 1);
            }
        }
    }

    /// Paints `tile` on the active layer, replacing what was on its cell.
    /// Does nothing when no existing layer is active.
    pub fn add_tile(&mut self, tile: TileData)
        ensures
            tile_added(*old(self), *final(self), tile),
    {
        if let Some(i) = self.active_layer {
            if i < self.layers.len() {
                put_tile(&mut self.layers[i].tiles, tile);
            }
        }
    }

    /// Removes the tiles on cell `(x, y)` of the active layer. Does nothing
    /// when no existing layer is active.
    pub fn remove_tile(&mut self, x: u32, y: u32)
        ensures
            tile_removed(*old(self), *final(self), x, y),
    {
        if let Some(i) = self.active_layer {
            if i < self.layers.len() {
                clear_cell(&mut self.layers[i].tiles, x, y);
            }
        }
    }

    /// The tile on cell `(x, y)` of the active layer, if any.
    pub fn get_tile_at(&self, x: u32, y: u32) -> (r: Option<&TileData>)
        ensures
            r == (match self.active_tiles() {
                Some(tiles) => match tile_at(tiles, x, y) {
                    Some(t) => Some(&t),
                    None => None,
                },
                None => None,
            }),
    {
        match self.get_active_layer() {
            Some(layer) => find_tile(&layer.tiles, x, y),
            None => None,
        }
    }

    /// The layer indices in drawing order: by increasing z index, layers
    /// with equal z index in list order.
    fn sorted_layer_indices(&self) -> (order: Vec<usize>)
        ensures
            is_z_order(self.layers@, order@.map_values(|i: usize| i as int)),
    {
        let ghost layers = self.layers@;
        let n = self.layers.len();
        let mut order: Vec<usize> = Vec::new();
        let mut i: usize = 0;
        while i < n
            invariant
                layers == self.layers@,
                n == layers.len(),
                i <= n,
                order@.len() == i,
                forall|k: int| 0 <= k < order@.len() ==> #[trigger] order@[k] < i,
                order@.no_duplicates(),
                forall|k1: int, k2: int|
                    0 <= k1 < k2 < order@.len() ==> z_before(layers, #[trigger] order@[k1] as int, #[trigger] order@[k2] as int),
            decreases n - i,
        {
            let zi = self.layers[i].metadata.z_index;
            let mut pos: usize = 0;
            while pos < order.len() && self.layers[order[pos]].metadata.z_index <= zi
                invariant
                    layers == self.layers@,
                    n == layers.len(),
                    i < n,
                    zi == layers[i as int].metadata.z_index,
                    pos <= order@.len(),
                    forall|k: int| 0 <= k < order@.len() ==> #[trigger] order@[k] < i,
                    forall|k: int| 0 <= k < pos ==> layers[(#[trigger] order@[k]) as int].metadata.z_index <= zi,
                decreases order@.len() - pos,
            {
                pos = pos + 1;
            }
            let ghost before = order@;
            order.insert(pos, i);
            proof {
                assert forall|k: int| pos <= k < before.len() implies layers[(#[trigger] before[k]) as int].metadata.z_index > zi by {
                    if k > pos as int {
                        assert(z_before(layers, before[pos as int] as int, before[k] as int));
                    }
                }
                assert forall|k: int| 0 <= k < order@.len() implies #[trigger] order@[k] < i + 1 by {
                    if k < pos {
                        assert(order@[k] == before[k]);
                    } else if k > pos {
                        assert(order@[k] == before[k - 1]);
                    }
                }
                assert forall|k1: int, k2: int| 0 <= k1 < k2 < order@.len() implies order@[k1] != order@[k2] by {
                    if k1 < pos && k2 < pos {
                        assert(order@[k1] == before[k1] && order@[k2] == before[k2]);
                    } else if k1 < pos && k2 > pos {
                        assert(order@[k1] == before[k1] && order@[k2] == before[k2 - 1]);
                    } else if k1 > pos {
                        assert(order@[k1] == before[k1 - 1] && order@[k2] == before[k2 - 1]);
                    } else if k1 < pos {
                        assert(order@[k1] == before[k1]);
                    } else {
                        assert(order@[k2] == before[k2 - 1]);
                    }
                }
                assert forall|k1: int, k2: int|
                    0 <= k1 < k2 < order@.len() implies z_before(layers, #[trigger] order@[k1] as int, #[trigger] order@[k2] as int) by {
                    if k1 < pos && k2 < pos {
                        assert(order@[k1] == before[k1] && order@[k2] == before[k2]);
                    } else if k1 < pos && k2 > pos {
                        assert(order@[k1] == before[k1] && order@[k2] == before[k2 - 1]);
                    } else if k1 > pos {
                        assert(order@[k1] == before[k1 - 1] && order@[k2] == before[k2 - 1]);
                    } else if k1 < pos {
                        assert(order@[k1] == before[k1]);
                        assert(order@[k2] == i);
                    } else {
                        assert(order@[k1] == i);
                        assert(order@[k2] == before[k2 - 1]);
                    }
                }
            }
            i = i + 1;
        }
        proof {
            let m = order@.map_values(|i: usize| i as int);
            assert forall|k1: int, k2: int| 0 <= k1 < k2 < m.len() implies m[k1] != m[k2] by {
                assert(order@[k1] != order@[k2]);
            }
            assert forall|k1: int, k2: int| 0 <= k1 < k2 < m.len() implies z_before(layers, #[trigger] m[k1], #[trigger] m[k2]) by {
                assert(z_before(layers, order@[k1] as int, order@[k2] as int));
            }
        }
        order
    }

    /// The layers in drawing order: by increasing z index, layers with equal
    /// z index in list order.
    pub fn get_sorted_layers(&self) -> (r: Vec<&LayerData>)
        ensures
            exists|order: Seq<int>|
                #[trigger] is_z_order(self.layers@, order) && r@.len() == order.len() && forall|k: int|
                    0 <= k < order.len() ==> #[trigger] r@[k] == &self.layers@[order[k]],
    {
        let order = self.sorted_layer_indices();
        let ghost o = order@.map_values(|i: usize| i as int);
        let mut r: Vec<&LayerData> = Vec::new();
        let mut k: usize = 0;
        while k < order.len()
            invariant
                o == order@.map_values(|i: usize| i as int),
                is_z_order(self.layers@, o),
                k <= order@.len(),
                r@.len() == k,
                forall|j: int| 0 <= j < k ==> #[trigger] r@[j] == &self.layers@[o[j]],
            decreases order@.len() - k,
        {
            assert(o[k as int] == order@[k as int] as int);
            r.push(&self.layers[order[k]]);
            k = k + 1;
        }
        assert(is_z_order(self.layers@, o));
        r
    }

    /// Drops all layers and visibility records and restarts ids at 0.
    pub fn clear(&mut self)
        ensures
            final(self).layers@ == Seq::<LayerData>::empty(),
            final(self).active_layer is None,
            final(self).layer_visibility@ == Map::<u32, bool>::empty(),
            final(self).next_layer_id() == 0,
    {
        self.layers.clear();
        self.active_layer = None;
        self.layer_visibility.clear();
        self.next_id = 0;
    }
}

impl Default for LayerManager {
    fn default() -> (r: Self)
        ensures
            r.layers@ == Seq::<LayerData>::empty(),
            r.active_layer is None,
            r.layer_visibility@ == Map::<u32, bool>::empty(),
            r.next_layer_id() == 0,
    {
        LayerManager::new()
    }
}

/// Metadata for a new layer named `name`: 64 by 64 cells of 16 units, on
/// level 0; the id is given when the layer is added.
pub fn create_default_layer(layer_type: LayerType, name: &str, z_index: i32, tileset_id: Option<u32>) -> (r:
    LayerMetadata)
    ensures
        r.id == 0,
        r.level_id == 0,
        r.identifier@ == name@,
        r.layer_type == layer_type,
        r.tileset_id == tileset_id,
        r.grid_size == 16,
        r.width == 64,
        r.height == 64,
        r.z_index == z_index,
{
    LayerMetadata {
        id: 0,
        level_id: 0,
        identifier: String::from_str(name),
        layer_type,
        tileset_id,
        grid_size: 16,
        width: 64,
        height: 64,
        z_index,
    }
}

/// Reading a cell of the active layer after painting a tile gives the tile
/// back on its own cell, and what was there before on every other cell.
pub proof fn lemma_get_after_add(old: LayerManager, new: LayerManager, tile: TileData, x: u32, y: u32)
    requires
        tile_added(old, new, tile),
        old.active_index() is Some,
    ensures
        new.active_tiles() matches Some(tiles) && tile_at(tiles, x, y) == if x == tile.x && y == tile.y {
            Some(tile)
        } else {
            tile_at(old.active_tiles()->0, x, y)
        },
{
    let i = old.active_index()->0;
    assert(new.active_index() == Some(i));
    lemma_tile_at_with_tile(old.layers@[i].tiles@, tile, x, y);
}

/// Reading the erased cell of the active layer gives nothing; every other
/// cell reads as before.
pub proof fn lemma_get_after_remove(old: LayerManager, new: LayerManager, px: u32, py: u32, x: u32, y: u32)
    requires
        tile_removed(old, new, px, py),
        old.active_index() is Some,
    ensures
        new.active_tiles() matches Some(tiles) && tile_at(tiles, x, y) == if x == px && y == py {
            None
        } else {
            tile_at(old.active_tiles()->0, x, y)
        },
{
    let i = old.active_index()->0;
    assert(new.active_index() == Some(i));
    lemma_tile_at_without(old.layers@[i].tiles@, px, py, x, y);
}

/// Moving a layer up and then moving it back down (from its new index)
/// restores the layers, z indices included, and the active layer too unless
/// it was the layer the moved one passed (which keeps its index while the
/// layers swap). This needs the moved layer's z index below the largest,
/// where raising it has no effect.
pub proof fn lemma_move_up_then_down(l0: LayerManager, l1: LayerManager, l2: LayerManager, index: usize)
    requires
        0 < index < l0.layers@.len(),
        l0.layers@[index as int].metadata.z_index < i32::MAX,
        moved_up(l0, l1, index),
        moved_down(l1, l2, (index - 1) as usize),
    ensures
        l2.layers@ == l0.layers@,
        l0.active_layer != Some((index - 1) as usize) ==> l2.active_layer == l0.active_layer,
        l2.layer_visibility == l0.layer_visibility,
        l2.next_id == l0.next_id,
{
    assert(l2.layers@[index as int] == l0.layers@[index as int]);
    assert(l2.layers@ =~= l0.layers@);
}

/// Moving a layer up raises it in the z-order above where it was, and
/// moving it down lowers it, unless it is already at the extreme z index.
pub proof fn lemma_move_changes_z(old: LayerManager, up: LayerManager, down: LayerManager, index: usize)
    requires
        moved_up(old, up, index),
        moved_down(old, down, index),
    ensures
        0 < index < old.layers@.len() && old.layers@[index as int].metadata.z_index < i32::MAX
            ==> up.layers@[index - 1].metadata.z_index > old.layers@[index as int].metadata.z_index,
        index + 1 < old.layers@.len() && old.layers@[index as int].metadata.z_index > i32::MIN
            ==> down.layers@[index + 1].metadata.z_index < old.layers@[index as int].metadata.z_index,
{
}

/// No two tiles of `tiles` lie on the same cell.
pub open spec fn one_tile_per_cell(tiles: Seq<TileData>) -> bool {
    forall|i: int, j: int|
        0 <= i < tiles.len() && 0 <= j < tiles.len() && i != j ==> !is_at(#[trigger] tiles[i], (#[trigger] tiles[j]).x, tiles[j].y)
}

proof fn lemma_filter_one_tile_per_cell(s: Seq<TileData>, pred: spec_fn(TileData) -> bool)
    requires
        one_tile_per_cell(s),
    ensures
        one_tile_per_cell(s.filter(pred)),
    decreases s.len(),
{
    reveal(Seq::filter);
    if s.len() > 0 {
        let init = s.drop_last();
        let last = s.last();
        assert forall|i: int, j: int|
            0 <= i < init.len() && 0 <= j < init.len() && i != j implies !is_at(#[trigger] init[i], (#[trigger] init[j]).x, init[j].y) by {
            assert(init[i] == s[i] && init[j] == s[j]);
        }
        lemma_filter_one_tile_per_cell(init, pred);
        let f = init.filter(pred);
        if pred(last) {
            assert(s.filter(pred) == f.push(last));
            assert forall|k: int| 0 <= k < f.len() implies !is_at(#[trigger] f[k], last.x, last.y) && !is_at(last, f[k].x, f[k].y) by {
                assert(f.contains(f[k]));
                init.lemma_filter_contains_rev(pred, f[k]);
                let m = choose|m: int| 0 <= m < init.len() && init[m] == f[k];
                assert(s[m] == f[k]);
                assert(s[s.len() - 1] == last);
            }
            let g = f.push(last);
            assert forall|i: int, j: int|
                0 <= i < g.len() && 0 <= j < g.len() && i != j implies !is_at(#[trigger] g[i], (#[trigger] g[j]).x, g[j].y) by {
                if i < f.len() && j < f.len() {
                    assert(g[i] == f[i] && g[j] == f[j]);
                } else if i < f.len() {
                    assert(g[i] == f[i] && g[j] == last);
                } else {
                    assert(g[j] == f[j] && g[i] == last);
                }
            }
        } else {
            assert(s.filter(pred) == f);
        }
    }
}

/// Painting a tile on a layer that holds at most one tile per cell keeps it
/// so: the painted cell holds just the new tile.
pub proof fn lemma_with_tile_one_per_cell(tiles: Seq<TileData>, tile: TileData)
    requires
        one_tile_per_cell(tiles),
    ensures
        one_tile_per_cell(with_tile(tiles, tile)),
{
    let pred = not_at(tile.x, tile.y);
    lemma_filter_one_tile_per_cell(tiles, pred);
    let f = tiles.filter(pred);
    assert forall|k: int| 0 <= k < f.len() implies !is_at(#[trigger] f[k], tile.x, tile.y) by {
        tiles.lemma_filter_pred(pred, k);
    }
    let g = f.push(tile);
    assert forall|i: int, j: int|
        0 <= i < g.len() && 0 <= j < g.len() && i != j implies !is_at(#[trigger] g[i], (#[trigger] g[j]).x, g[j].y) by {
        if i < f.len() && j < f.len() {
            assert(g[i] == f[i] && g[j] == f[j]);
        } else if i < f.len() {
            assert(g[i] == f[i] && g[j] == tile);
        } else {
            assert(g[j] == f[j] && g[i] == tile);
        }
    }
}

/// Painting a tile keeps every cell of the active layer holding at most one
/// tile.
pub proof fn lemma_add_keeps_one_tile_per_cell(old: LayerManager, new: LayerManager, tile: TileData)
    requires
        old.active_tiles() matches Some(tiles) && one_tile_per_cell(tiles),
        tile_added(old, new, tile),
    ensures
        new.active_tiles() matches Some(tiles) && one_tile_per_cell(tiles),
{
    let i = old.active_index()->0;
    assert(new.active_index() == Some(i));
    lemma_with_tile_one_per_cell(old.layers@[i].tiles@, tile);
}

/// Erasing a cell keeps every cell of the active layer holding at most one
/// tile.
pub proof fn lemma_remove_keeps_one_tile_per_cell(old: LayerManager, new: LayerManager, x: u32, y: u32)
    requires
        old.active_tiles() matches Some(tiles) && one_tile_per_cell(tiles),
        tile_removed(old, new, x, y),
    ensures
        new.active_tiles() matches Some(tiles) && one_tile_per_cell(tiles),
{
    let i = old.active_index()->0;
    assert(new.active_index() == Some(i));
    lemma_filter_one_tile_per_cell(old.layers@[i].tiles@, not_at(x, y));
}

} // verus!
