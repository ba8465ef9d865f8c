//! Rows of the game server's world tables, and the rows an editor world
//! export turns into when it is uploaded.

use vstd::prelude::*;

verus! {

/// A tileset texture and how its tiles are laid out.
#[derive(Debug, Clone)]
pub struct Tileset {
    pub id: u32,
    pub identifier: String,
    pub texture_path: String,
    pub tile_width: u32,
    pub tile_height: u32,
    pub columns: u32,
    pub rows: u32,
    pub spacing: u32,
    pub padding: u32,
}

/// One painted tile of a tilemap layer.
#[derive(Debug, Clone, Copy, PartialEq, Eq, Structural)]
pub struct TilemapTile {
    /// Row id; 0 asks the table to assign the next one.
    pub id: u64,
    pub layer_id: u32,
    pub x: u32,
    pub y: u32,
    /// Index of the tile in its tileset.
    pub tile_id: u32,
    pub flip_x: bool,
    pub flip_y: bool,
}

/// One cell value of an IntGrid layer.
#[derive(Debug, Clone, Copy, PartialEq, Eq, Structural)]
pub struct IntGridCell {
    /// Row id; 0 asks the table to assign the next one.
    pub id: u64,
    pub layer_id: u32,
    pub x: u32,
    pub y: u32,
    pub value: u32,
}

/// A collision shape defined for one tile of a tileset.
#[derive(Debug, Clone)]
pub struct TileCollisionShape {
    pub id: u32,
    pub tileset_id: u32,
    pub tile_id: u32,
    /// "Rectangle", "Ellipse", "Polygon", "Polyline" or "Point".
    pub shape_type: String,
    /// The shape, serialized as JSON.
    pub shape_data: String,
}

/// A custom entity class with user-defined fields.
#[derive(Debug, Clone)]
pub struct EntityDefinition {
    pub id: u32,
    pub identifier: String,
    pub width: u32,
    pub height: u32,
    /// Hex color for the editor, such as "#FF0000".
    pub color: String,
    /// The field definitions, serialized as JSON.
    pub field_definitions: String,
}

/// A custom enum for entity fields.
#[derive(Debug, Clone)]
pub struct EnumDefinition {
    pub id: u32,
    pub identifier: String,
    /// The enum values, serialized as JSON.
    pub values: String,
}

/// World-level data, with the full editor export for re-importing.
#[derive(Debug, Clone)]
pub struct WorldMetadata {
    pub id: u32,
    pub version: String,
    /// Time of the upload, in milliseconds since the Unix epoch.
    pub last_updated: u64,
    /// The editor export the world came from.
    pub editor_data: String,
}

/// A tileset as the editor exports it.
#[derive(Debug, Clone)]
pub struct TilesetExport {
    pub id: u32,
    pub identifier: String,
    pub texture_path: String,
    pub tile_width: u32,
    pub tile_height: u32,
    pub columns: u32,
    pub rows: u32,
    pub spacing: u32,
    pub padding: u32,
}

/// A painted tile as the editor exports it.
#[derive(Debug, Clone, Copy, PartialEq, Eq, Structural)]
pub struct TileExport {
    pub x: u32,
    pub y: u32,
    pub tile_id: u32,
    pub flip_x: bool,
    pub flip_y: bool,
}

/// An IntGrid cell as the editor exports it.
#[derive(Debug, Clone, Copy, PartialEq, Eq, Structural)]
pub struct IntGridCellExport {
    pub x: u32,
    pub y: u32,
    pub value: u32,
}

/// A layer as the editor exports it: its metadata and its cells.
#[derive(Debug, Clone)]
pub struct LayerExport {
    pub id: u32,
    pub level_id: u32,
    pub identifier: String,
    /// "Tiles", "IntGrid", "Entities" or "AutoLayer".
    pub layer_type: String,
    pub tileset_id: Option<u32>,
    pub grid_size: u32,
    /// Width in tiles.
    pub width: u32,
    /// Height in tiles.
    pub height: u32,
    pub z_index: i32,
    pub tiles: Vec<TileExport>,
    pub intgrid_cells: Vec<IntGridCellExport>,
}

/// The metadata row of a tilemap layer: its integer and text fields.
#[derive(Debug, Clone)]
pub struct TilemapLayerRow {
    pub id: u32,
    pub level_id: u32,
    pub identifier: String,
    pub layer_type: String,
    pub tileset_id: Option<u32>,
    pub grid_size: u32,
    pub width: u32,
    pub height: u32,
    pub z_index: i32,
}

/// An entity placed in a level, as the editor exports it: its integer and
/// text fields.
#[derive(Debug, Clone)]
pub struct EntityInstanceExport {
    pub level_id: u32,
    pub entity_def_id: u32,
    /// The field values, serialized as JSON.
    pub field_values: String,
}

/// The row of a placed entity: its integer and text fields.
#[derive(Debug, Clone)]
pub struct EntityInstanceRow {
    /// Row id; 0 asks the table to assign the next one.
    pub id: u64,
    pub level_id: u32,
    pub entity_def_id: u32,
    pub field_values: String,
}

/// An entity definition as the editor exports it.
#[derive(Debug, Clone)]
pub struct EntityDefinitionExport {
    pub id: u32,
    pub identifier: String,
    pub width: u32,
    pub height: u32,
    pub color: String,
    pub field_definitions: String,
}

/// An enum definition as the editor exports it.
#[derive(Debug, Clone)]
pub struct EnumDefinitionExport {
    pub id: u32,
    pub identifier: String,
    pub values: String,
}

/// The parts of an editor world export that become table rows.
#[derive(Debug, Clone)]
pub struct WorldExport {
    pub version: String,
    pub tilesets: Vec<TilesetExport>,
    pub layers: Vec<LayerExport>,
    pub entity_definitions: Vec<EntityDefinitionExport>,
    pub entity_instances: Vec<EntityInstanceExport>,
    pub enum_definitions: Vec<EnumDefinitionExport>,
}

/// The rows an upload writes.
#[derive(Debug, Clone)]
pub struct WorldRows {
    pub metadata: WorldMetadata,
    pub tilesets: Vec<Tileset>,
    pub layers: Vec<TilemapLayerRow>,
    pub tiles: Vec<TilemapTile>,
    pub intgrid_cells: Vec<IntGridCell>,
    pub entity_definitions: Vec<EntityDefinition>,
    pub entity_instances: Vec<EntityInstanceRow>,
    pub enum_definitions: Vec<EnumDefinition>,
}

/// `row` holds the tileset `t`.
pub open spec fn tileset_row(row: Tileset, t: TilesetExport) -> bool {
    &&& row.id == t.id
    &&& row.identifier@ == t.identifier@
    &&& row.texture_path@ == t.texture_path@
    &&& row.tile_width == t.tile_width
    &&& row.tile_height == t.tile_height
    &&& row.columns == t.columns
    &&& row.rows == t.rows
    &&& row.spacing == t.spacing
    &&& row.padding == t.padding
}

/// `row` holds the entity definition `d`.
pub open spec fn entity_definition_row(row: EntityDefinition, d: EntityDefinitionExport) -> bool {
    &&& row.id == d.id
    &&& row.identifier@ == d.identifier@
    &&& row.width == d.width
    &&& row.height == d.height
    &&& row.color@ == d.color@
    &&& row.field_definitions@ == d.field_definitions@
}

/// `row` holds the metadata of layer `l`.
pub open spec fn layer_row(row: TilemapLayerRow, l: LayerExport) -> bool {
    &&& row.id == l.id
    &&& row.level_id == l.level_id
    &&& row.identifier@ == l.identifier@
    &&& row.layer_type@ == l.layer_type@
    &&& row.tileset_id == l.tileset_id
    &&& row.grid_size == l.grid_size
    &&& row.width == l.width
    &&& row.height == l.height
    &&& row.z_index == l.z_index
}

/// `row` holds the placed entity `e`, with the id left to the table.
pub open spec fn entity_instance_row(row: EntityInstanceRow, e: EntityInstanceExport) -> bool {
    &&& row.id == 0
    &&& row.level_id == e.level_id
    &&& row.entity_def_id == e.entity_def_id
    &&& row.field_values@ == e.field_values@
}

/// `row` holds the enum definition `d`.
pub open spec fn enum_definition_row(row: EnumDefinition, d: EnumDefinitionExport) -> bool {
    &&& row.id == d.id
    &&& row.identifier@ == d.identifier@
    &&& row.values@ == d.values@
}

/// The row of tile `t` of layer `layer_id`, with the id left to the table.
pub open spec fn tile_row(layer_id: u32, t: TileExport) -> TilemapTile {
    TilemapTile { id: 0, layer_id, x: t.x, y: t.y, tile_id: t.tile_id, flip_x: t.flip_x, flip_y: t.flip_y }
}

/// The row of IntGrid cell `c` of layer `layer_id`, with the id left to the
/// table.
pub open spec fn intgrid_row(layer_id: u32, c: IntGridCellExport) -> IntGridCell {
    IntGridCell { id: 0, layer_id, x: c.x, y: c.y, value: c.value }
}

/// The tile rows of `layers`: layer by layer, each layer's tiles in order.
pub open spec fn tile_rows(layers: Seq<LayerExport>) -> Seq<TilemapTile>
    decreases layers.len(),
{
    if layers.len() == 0 {
        Seq::empty()
    } else {
        let l = layers.last();
        tile_rows(layers.drop_last()) + l.tiles@.map_values(|t: TileExport| tile_row(l.id, t))
    }
}

/// The IntGrid rows of `layers`: layer by layer, each layer's cells in
/// order.
pub open spec fn intgrid_rows(layers: Seq<LayerExport>) -> Seq<IntGridCell>
    decreases layers.len(),
{
    if layers.len() == 0 {
        Seq::empty()
    } else {
        let l = layers.last();
        intgrid_rows(layers.drop_last()) + l.intgrid_cells@.map_values(|c: IntGridCellExport| intgrid_row(l.id, c))
    }
}

fn tileset_rows(exports: &Vec<TilesetExport>) -> (r: Vec<Tileset>)
    ensures
        r@.len() == exports@.len(),
        forall|i: int| 0 <= i < r@.len() ==> tileset_row(#[trigger] r@[i], exports@[i]),
{
    let mut rows: Vec<Tileset> = Vec::new();
    let mut i: usize = 0;
    while i < exports.len()
        invariant
            i <= exports@.len(),
            rows@.len() == i,
            forall|k: int| 0 <= k < i ==> tileset_row(#[trigger] rows@[k], exports@[k]),
        decreases exports@.len() - i,
    {
        let t = &exports[i];
        rows.push(
            Tileset {
                id: t.id,
                identifier: t.identifier.clone(),
                texture_path: t.texture_path.clone(),
                tile_width: t.tile_width,
                tile_height: t.tile_height,
                columns: t.columns,
                rows: t.rows,
                spacing: t.spacing,
                padding: t.padding,
            },
        );
        i = i + 1;
    }
    rows
}

fn entity_definition_rows(exports: &Vec<EntityDefinitionExport>) -> (r: Vec<EntityDefinition>)
    ensures
        r@.len() == exports@.len(),
        forall|i: int| 0 <= i < r@.len() ==> entity_definition_row(#[trigger] r@[i], exports@[i]),
{
    let mut rows: Vec<EntityDefinition> = Vec::new();
    let mut i: usize = 0;
    while i < exports.len()
        invariant
            i <= exports@.len(),
            rows@.len() == i,
            forall|k: int| 0 <= k < i ==> entity_definition_row(#[trigger] rows@[k], exports@[k]),
        decreases exports@.len() - i,
    {
        let d = &exports[i];
        rows.push(
            EntityDefinition {
                id: d.id,
                identifier: d.identifier.clone(),
                width: d.width,
                height: d.height,
                color: d.color.clone(),
                field_definitions: d.field_definitions.clone(),
            },
        );
        i = i + 1;
    }
    rows
}

fn enum_definition_rows(exports: &Vec<EnumDefinitionExport>) -> (r: Vec<EnumDefinition>)
    ensures
        r@.len() == exports@.len(),
        forall|i: int| 0 <= i < r@.len() ==> enum_definition_row(#[trigger] r@[i], exports@[i]),
{
    let mut rows: Vec<EnumDefinition> = Vec::new();
    let mut i: usize = 0;
    while i < exports.len()
        invariant
            i <= exports@.len(),
            rows@.len() == i,
            forall|k: int| 0 <= k < i ==> enum_definition_row(#[trigger] rows@[k], exports@[k]),
        decreases exports@.len() - i,
    {
        let d = &exports[i];
        rows.push(EnumDefinition { id: d.id, identifier: d.identifier.clone(), values: d.values.clone() });
        i = i + 1;
    }
    rows
}

fn layer_rows(exports: &Vec<LayerExport>) -> (r: Vec<TilemapLayerRow>)
    ensures
        r@.len() == exports@.len(),
        forall|i: int| 0 <= i < r@.len() ==> layer_row(#[trigger] r@[i], exports@[i]),
{
    let mut rows: Vec<TilemapLayerRow> = Vec::new();
    let mut i: usize = 0;
    while i < exports.len()
        invariant
            i <= exports@.len(),
            rows@.len() == i,
            forall|k: int| 0 <= k < i ==> layer_row(#[trigger] rows@[k], exports@[k]),
        decreases exports@.len() - i,
    {
        let l = &exports[i];
        rows.push(
            TilemapLayerRow {
                id: l.id,
                level_id: l.level_id,
                identifier: l.identifier.clone(),
                layer_type: l.layer_type.clone(),
                tileset_id: l.tileset_id,
                grid_size: l.grid_size,
                width: l.width,
                height: l.height,
                z_index: l.z_index,
            },
        );
        i = i + 1;
    }
    rows
}

fn entity_instance_rows(exports: &Vec<EntityInstanceExport>) -> (r: Vec<EntityInstanceRow>)
    ensures
        r@.len() == exports@.len(),
        forall|i: int| 0 <= i < r@.len() ==> entity_instance_row(#[trigger] r@[i], exports@[i]),
{
    let mut rows: Vec<EntityInstanceRow> = Vec::new();
    let mut i: usize = 0;
    while i < exports.len()
        invariant
            i <= exports@.len(),
            rows@.len() == i,
            forall|k: int| 0 <= k < i ==> entity_instance_row(#[trigger] rows@[k], exports@[k]),
        decreases exports@.len() - i,
    {
        let e = &exports[i];
        rows.push(
            EntityInstanceRow {
                id: 0,
                level_id: e.level_id,
                entity_def_id: e.entity_def_id,
                field_values: e.field_values.clone(),
            },
        );
        i = i + 1;
    }
    rows
}

fn layer_tile_rows(rows: &mut Vec<TilemapTile>, layer: &LayerExport)
    ensures
        final(rows)@ == old(rows)@ + layer.tiles@.map_values(|t: TileExport| tile_row(layer.id, t)),
{
    let ghost start = rows@;
    let mut i: usize = 0;
    while i < layer.tiles.len()
        invariant
            i <= layer.tiles@.len(),
            rows@ == start + layer.tiles@.take(i as int).map_values(|t: TileExport| tile_row(layer.id, t)),
        decreases layer.tiles@.len() - i,
    {
        let t = layer.tiles[i];
        rows.push(
            TilemapTile {
                id: 0,
                layer_id: layer.id,
                x: t.x,
                y: t.y,
                tile_id: t.tile_id,
                flip_x: t.flip_x,
                flip_y: t.flip_y,
            },
        );
        proof {
            assert(layer.tiles@.take(i as int + 1) =~= layer.tiles@.take(i as int).push(t));
            assert(layer.tiles@.take(i as int + 1).map_values(|t: TileExport| tile_row(layer.id, t))
                =~= layer.tiles@.take(i as int).map_values(|t: TileExport| tile_row(layer.id, t)).push(
                tile_row(layer.id, t),
            ));
        }
        i = i + 1;
    }
    assert(layer.tiles@.take(i as int) =~= layer.tiles@);
}

fn layer_intgrid_rows(rows: &mut Vec<IntGridCell>, layer: &LayerExport)
    ensures
        final(rows)@ == old(rows)@ + layer.intgrid_cells@.map_values(
            |c: IntGridCellExport| intgrid_row(layer.id, c),
        ),
{
    let ghost start = rows@;
    let mut i: usize = 0;
    while i < layer.intgrid_cells.len()
        invariant
            i <= layer.intgrid_cells@.len(),
            rows@ == start + layer.intgrid_cells@.take(i as int).map_values(
                |c: IntGridCellExport| intgrid_row(layer.id, c),
            ),
        decreases layer.intgrid_cells@.len() - i,
    {
        let c = layer.intgrid_cells[i];
        rows.push(IntGridCell { id: 0, layer_id: layer.id, x: c.x, y: c.y, value: c.value });
        proof {
            assert(layer.intgrid_cells@.take(i as int + 1) =~= layer.intgrid_cells@.take(i as int).push(c));
            assert(layer.intgrid_cells@.take(i as int + 1).map_values(
                |c: IntGridCellExport| intgrid_row(layer.id, c),
            ) =~= layer.intgrid_cells@.take(i as int).map_values(
                |c: IntGridCellExport| intgrid_row(layer.id, c),
            ).push(intgrid_row(layer.id, c)));
        }
        i = i + 1;
    }
    assert(layer.intgrid_cells@.take(i as int) =~= layer.intgrid_cells@);
}

/// The rows an upload of `export` writes: the world metadata (id 0, the
/// export's version, `timestamp`, and the export itself as `editor_data`),
/// then the tilesets, the layers' metadata, the tiles and IntGrid cells of
/// every layer (layer by layer, tagged with the layer's id, row ids left to
/// the table), the entity definitions, the placed entities (row ids left to
/// the table) and the enum definitions, each in export order.
pub fn world_rows(export: &WorldExport, editor_data: String, timestamp: u64) -> (r: WorldRows)
    ensures
        r.metadata.id == 0,
        r.metadata.version@ == export.version@,
        r.metadata.last_updated == timestamp,
        r.metadata.editor_data == editor_data,
        r.tilesets@.len() == export.tilesets@.len(),
        forall|i: int| 0 <= i < r.tilesets@.len() ==> tileset_row(#[trigger] r.tilesets@[i], export.tilesets@[i]),
        r.layers@.len() == export.layers@.len(),
        forall|i: int| 0 <= i < r.layers@.len() ==> layer_row(#[trigger] r.layers@[i], export.layers@[i]),
        r.tiles@ == tile_rows(export.layers@),
        r.intgrid_cells@ == intgrid_rows(export.layers@),
        r.entity_definitions@.len() == export.entity_definitions@.len(),
        forall|i: int|
            0 <= i < r.entity_definitions@.len() ==> entity_definition_row(
                #[trigger] r.entity_definitions@[i],
                export.entity_definitions@[i],
            ),
        r.entity_instances@.len() == export.entity_instances@.len(),
        forall|i: int|
            0 <= i < r.entity_instances@.len() ==> entity_instance_row(
                #[trigger] r.entity_instances@[i],
                export.entity_instances@[i],
            ),
        r.enum_definitions@.len() == export.enum_definitions@.len(),
        forall|i: int|
            0 <= i < r.enum_definitions@.len() ==> enum_definition_row(
                #[trigger] r.enum_definitions@[i],
                export.enum_definitions@[i],
            ),
{
    let metadata = WorldMetadata { id: 0, version: export.version.clone(), last_updated: timestamp, editor_data };
    let tilesets = tileset_rows(&export.tilesets);
    let layers = layer_rows(&export.layers);
    let mut tiles: Vec<TilemapTile> = Vec::new();
    let mut intgrid_cells: Vec<IntGridCell> = Vec::new();
    let mut i: usize = 0;
    while i < export.layers.len()
        invariant
            i <= export.layers@.len(),
            tiles@ == tile_rows(export.layers@.take(i as int)),
            intgrid_cells@ == intgrid_rows(export.layers@.take(i as int)),
        decreases export.layers@.len() - i,
    {
        let layer = &export.layers[i];
        proof {
            let t = export.layers@.take(i as int + 1);
            assert(t.drop_last() =~= export.layers@.take(i as int));
            assert(t.last() == *layer);
        }
        layer_tile_rows(&mut tiles, layer);
        layer_intgrid_rows(&mut intgrid_cells, layer);
        i = i + 1;
    }
    assert(export.layers@.take(i as int) =~= export.layers@);
    let entity_definitions = entity_definition_rows(&export.entity_definitions);
    let entity_instances = entity_instance_rows(&export.entity_instances);
    let enum_definitions = enum_definition_rows(&export.enum_definitions);
    WorldRows {
        metadata,
        tilesets,
        layers,
        tiles,
        intgrid_cells,
        entity_definitions,
        entity_instances,
        enum_definitions,
    }
}

/// The tiles of layer `layer_id`, in table order.
pub fn tilemap_tile_by_layer(tiles: &Vec<TilemapTile>, layer_id: u32) -> (r: Vec<TilemapTile>)
    ensures
        r@ == tiles@.filter(|t: TilemapTile| t.layer_id == layer_id),
{
    let mut out: Vec<TilemapTile> = Vec::new();
    let mut i: usize = 0;
    while i < tiles.len()
        invariant
            i <= tiles@.len(),
            out@ == tiles@.take(i as int).filter(|t: TilemapTile| t.layer_id == layer_id),
        decreases tiles@.len() - i,
    {
        let t = tiles[i];
        proof {
            let s = tiles@.take(i as int + 1);
            assert(s.drop_last() =~= tiles@.take(i as int));
            assert(s.last() == t);
            reveal(Seq::filter);
        }
        if t.layer_id == layer_id {
            out.push(t);
        }
        i = i + 1;
    }
    assert(tiles@.take(i as int) =~= tiles@);
    out
}

/// Every exported IntGrid cell becomes one row, in export order, carrying
/// the cell's own coordinates and value and its layer's id: the rows of
/// layer `k` follow those of the layers before it, and its `i`-th cell is
/// the `i`-th of them.
pub proof fn lemma_intgrid_rows_keep_cells(layers: Seq<LayerExport>, k: int, i: int)
    requires
        0 <= k < layers.len(),
        0 <= i < layers[k].intgrid_cells@.len(),
    ensures
        intgrid_rows(layers.take(k)).len() + i < intgrid_rows(layers).len(),
        intgrid_rows(layers)[intgrid_rows(layers.take(k)).len() + i].id == 0,
        intgrid_rows(layers)[intgrid_rows(layers.take(k)).len() + i].layer_id == layers[k].id,
        intgrid_rows(layers)[intgrid_rows(layers.take(k)).len() + i].x == layers[k].intgrid_cells@[i].x,
        intgrid_rows(layers)[intgrid_rows(layers.take(k)).len() + i].y == layers[k].intgrid_cells@[i].y,
        intgrid_rows(layers)[intgrid_rows(layers.take(k)).len() + i].value == layers[k].intgrid_cells@[i].value,
    decreases layers.len(),
{
    let front = layers.drop_last();
    if k == layers.len() - 1 {
        assert(front =~= layers.take(k));
    } else {
        lemma_intgrid_rows_keep_cells(front, k, i);
        assert(front.take(k) =~= layers.take(k));
    }
}

/// Every exported tile becomes one row, in export order, carrying the
/// tile's own coordinates, tile id and flips and its layer's id: the rows of
/// layer `k` follow those of the layers before it, and its `i`-th tile is
/// the `i`-th of them.
pub proof fn lemma_tile_rows_keep_tiles(layers: Seq<LayerExport>, k: int, i: int)
    requires
        0 <= k < layers.len(),
        0 <= i < layers[k].tiles@.len(),
    ensures
        tile_rows(layers.take(k)).len() + i < tile_rows(layers).len(),
        tile_rows(layers)[tile_rows(layers.take(k)).len() + i].id == 0,
        tile_rows(layers)[tile_rows(layers.take(k)).len() + i].layer_id == layers[k].id,
        tile_rows(layers)[tile_rows(layers.take(k)).len() + i].x == layers[k].tiles@[i].x,
        tile_rows(layers)[tile_rows(layers.take(k)).len() + i].y == layers[k].tiles@[i].y,
        tile_rows(layers)[tile_rows(layers.take(k)).len() + i].tile_id == layers[k].tiles@[i].tile_id,
        tile_rows(layers)[tile_rows(layers.take(k)).len() + i].flip_x == layers[k].tiles@[i].flip_x,
        tile_rows(layers)[tile_rows(layers.take(k)).len() + i].flip_y == layers[k].tiles@[i].flip_y,
    decreases layers.len(),
{
    let front = layers.drop_last();
    if k == layers.len() - 1 {
        assert(front =~= layers.take(k));
    } else {
        lemma_tile_rows_keep_tiles(front, k, i);
        assert(front.take(k) =~= layers.take(k));
    }
}

/// A layer's metadata row and a tileset's row carry the exported values
/// field by field: in particular width stays width and height stays height.
pub proof fn lemma_rows_keep_fields(lrow: TilemapLayerRow, l: LayerExport, trow: Tileset, t: TilesetExport)
    requires
        layer_row(lrow, l),
        tileset_row(trow, t),
    ensures
        lrow.id == l.id && lrow.level_id == l.level_id && lrow.tileset_id == l.tileset_id,
        lrow.grid_size == l.grid_size && lrow.width == l.width && lrow.height == l.height,
        lrow.z_index == l.z_index,
        trow.id == t.id && trow.tile_width == t.tile_width && trow.tile_height == t.tile_height,
        trow.columns == t.columns && trow.rows == t.rows,
        trow.spacing == t.spacing && trow.padding == t.padding,
{
}

} // verus!
