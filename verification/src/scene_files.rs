//! What a saved scene records of its tilesets: texture paths relative to the
//! project's assets folder, each texture once.

use vstd::prelude::*;
use vstd::string::*;
use crate::project_generator::push_char;
use crate::tilemap_canvas::{captured, LevelTileInstance, TilemapCanvas};
use crate::scene_tabs::{path_ends_in, piece_of};

verus! {

/// Whether `pat` occurs in `s` starting at character `i`.
pub open spec fn occurs_at(s: Seq<char>, pat: Seq<char>, i: int) -> bool {
    0 <= i && i + pat.len() <= s.len() && s.subrange(i, i + pat.len()) == pat
}

/// The first position at or after `i` where `pat` occurs in `s`.
pub open spec fn find_from(s: Seq<char>, pat: Seq<char>, i: int) -> Option<int>
    decreases s.len() + 1 - i,
{
    if i < 0 || i + pat.len() > s.len() {
        None
    } else if occurs_at(s, pat, i) {
        Some(i)
    } else {
        find_from(s, pat, i + 1)
    }
}

/// The name of the assets folder that saved paths are relative to.
pub open spec fn assets_word() -> Seq<char> {
    seq!['a', 's', 's', 'e', 't', 's']
}

/// `c` with backslashes turned into forward slashes.
pub open spec fn forward_slash(c: char) -> char {
    if c == '\\' {
        '/'
    } else {
        c
    }
}

/// The path saved for a texture at `path`: everything after the first
/// "assets" and the one separator character that follows it, with
/// backslashes turned into forward slashes; `path` itself when it holds no
/// "assets".
pub open spec fn relative_asset_path(path: Seq<char>) -> Seq<char> {
    match find_from(path, assets_word(), 0) {
        Some(i) => path.skip(i + 7).map_values(|c: char| forward_slash(c)),
        None => path,
    }
}

/// A path made relative to the assets folder uses forward slashes only.
pub proof fn lemma_relative_path_forward_slashes(path: Seq<char>)
    requires
        find_from(path, assets_word(), 0) is Some,
    ensures
        forall|i: int| 0 <= i < relative_asset_path(path).len() ==> #[trigger] relative_asset_path(path)[i] != '\\',
{
}

/// Whether `path` can be made relative: the first "assets" in it is
/// followed by a one-byte (ASCII) character, on whose far side the path
/// is cut.
pub open spec fn relative_path_ready(path: Seq<char>) -> bool {
    match find_from(path, assets_word(), 0) {
        Some(i) => i + 6 < path.len() && (path[i + 6] as u32) < 128,
        None => true,
    }
}

proof fn lemma_find_from_skip(s: Seq<char>, pat: Seq<char>, i: int)
    requires
        0 <= i,
        i + pat.len() <= s.len(),
        !occurs_at(s, pat, i),
    ensures
        find_from(s, pat, i) == find_from(s, pat, i + 1),
{
}

fn matches_assets_at(s: &str, n: usize, i: usize) -> (r: bool)
    requires
        n == s@.len(),
        i + 6 <= n,
    ensures
        r == occurs_at(s@, assets_word(), i as int),
{
    let r = s.get_char(i) == 'a' && s.get_char(i + 1) == 's' && s.get_char(i + 2) == 's' && s.get_char(i + 3)
        == 'e' && s.get_char(i + 4) == 't' && s.get_char(i + 5) == 's';
    proof {
        let sub = s@.subrange(i as int, i as int + 6);
        if r {
            assert(sub =~= assets_word());
        } else {
            assert(sub != assets_word() ==> true);
            if sub == assets_word() {
                assert(sub[0] == 'a' && sub[1] == 's' && sub[2] == 's' && sub[3] == 'e' && sub[4] == 't' && sub[5]
                    == 's');
            }
        }
    }
    r
}

/// Makes a texture path relative to the assets folder: keeps what follows
/// the first "assets" and its separator, with forward slashes; a path
/// without "assets" is kept as it is.
pub fn convert_to_relative_asset_path(absolute_path: &str) -> (r: String)
    requires
        relative_path_ready(absolute_path@),
    ensures
        r@ == relative_asset_path(absolute_path@),
{
    let n = absolute_path.unicode_len();
    let ghost s = absolute_path@;
    let mut i: usize = 0;
    let mut found: Option<usize> = None;
    while n >= 6 && i <= n - 6
        invariant_except_break
            n == s.len(),
            s == absolute_path@,
            find_from(s, assets_word(), 0) == find_from(s, assets_word(), i as int),
            found is None,
        ensures
            n == s.len(),
            s == absolute_path@,
            match found {
                Some(k) => find_from(s, assets_word(), 0) == Some(k as int),
                None => find_from(s, assets_word(), 0) is None,
            },
        decreases n - i,
    {
        if matches_assets_at(absolute_path, n, i) {
            found = Some(i);
            break;
        }
        proof {
            lemma_find_from_skip(s, assets_word(), i as int);
        }
        i = i + 1;
    }
    match found {
        Some(k) => {
            let mut out = String::new();
            let mut j: usize = k + 7;
            while j < n
                invariant
                    n == s.len(),
                    s == absolute_path@,
                    k + 7 <= n,
                    k + 7 <= j <= n,
                    out@ == s.subrange(k as int + 7, j as int).map_values(|c: char| forward_slash(c)),
                decreases n - j,
            {
                let c = absolute_path.get_char(j);
                let d = if c == '\\' {
                    '/'
                } else {
                    c
                };
                push_char(&mut out, d);
                proof {
                    assert(s.subrange(k as int + 7, j as int + 1) =~= s.subrange(k as int + 7, j as int).push(c));
                }
                j = j + 1;
                proof {
                    assert(s.subrange(k as int + 7, j as int).map_values(|c: char| forward_slash(c)) =~= out@);
                }
            }
            assert(s.subrange(k as int + 7, n as int) =~= s.skip(k as int + 7));
            out
        },
        None => String::from_str(absolute_path),
    }
}

/// A loaded tileset, as the tileset panel holds it.
#[derive(Debug, Clone)]
pub struct TilesetSource {
    pub id: u32,
    pub identifier: String,
    /// The texture's path on disk.
    pub texture_path: String,
    pub tile_width: u32,
    pub tile_height: u32,
}

/// A tileset as a saved scene records it.
#[derive(Debug, Clone)]
pub struct LevelTilesetData {
    pub id: u32,
    pub identifier: String,
    /// The texture's path relative to the assets folder.
    pub texture_path: String,
    pub tile_width: u32,
    pub tile_height: u32,
}

/// Whether tileset `k` of `sources` is the first with its texture path.
pub open spec fn first_with_path(sources: Seq<TilesetSource>, k: int) -> bool {
    forall|j: int| 0 <= j < k ==> #[trigger] sources[j].texture_path@ != sources[k].texture_path@
}

/// The first `n` tilesets of `sources` without those whose texture path an
/// earlier one already has.
pub open spec fn distinct_textures(sources: Seq<TilesetSource>, n: int) -> Seq<TilesetSource>
    decreases n,
{
    if n <= 0 {
        Seq::empty()
    } else if first_with_path(sources, n - 1) {
        distinct_textures(sources, n - 1).push(sources[n - 1])
    } else {
        distinct_textures(sources, n - 1)
    }
}

/// `row` records tileset `t` with its texture path made relative.
pub open spec fn level_tileset_row(row: LevelTilesetData, t: TilesetSource) -> bool {
    &&& row.id == t.id
    &&& row.identifier@ == t.identifier@
    &&& row.texture_path@ == relative_asset_path(t.texture_path@)
    &&& row.tile_width == t.tile_width
    &&& row.tile_height == t.tile_height
}

/// The tilesets a saved scene records, in the order given: each texture
/// once (its first tileset), with its path made relative to the assets
/// folder.
pub fn level_tilesets(sources: &Vec<TilesetSource>) -> (r: Vec<LevelTilesetData>)
    requires
        forall|k: int| 0 <= k < sources@.len() ==> relative_path_ready(#[trigger] sources@[k].texture_path@),
    ensures
        r@.len() == distinct_textures(sources@, sources@.len() as int).len(),
        forall|i: int|
            0 <= i < r@.len() ==> level_tileset_row(
                #[trigger] r@[i],
                distinct_textures(sources@, sources@.len() as int)[i],
            ),
{
    let mut out: Vec<LevelTilesetData> = Vec::new();
    let mut seen: Vec<String> = Vec::new();
    let mut k: usize = 0;
    while k < sources.len()
        invariant
            k <= sources@.len(),
            forall|j: int| 0 <= j < sources@.len() ==> relative_path_ready(#[trigger] sources@[j].texture_path@),
            out@.len() == distinct_textures(sources@, k as int).len(),
            seen@.len() == out@.len(),
            forall|i: int|
                0 <= i < out@.len() ==> level_tileset_row(#[trigger] out@[i], distinct_textures(sources@, k as int)[i]),
            forall|i: int|
                0 <= i < seen@.len() ==> #[trigger] seen@[i]@ == distinct_textures(sources@, k as int)[i].texture_path@,
        decreases sources@.len() - k,
    {
        let t = &sources[k];
        let mut m: usize = 0;
        let mut dup = false;
        while m < seen.len()
            invariant_except_break
                m <= seen@.len(),
                !dup,
                forall|i: int| 0 <= i < m ==> seen@[i]@ != t.texture_path@,
            ensures
                dup <==> exists|i: int| 0 <= i < seen@.len() && seen@[i]@ == t.texture_path@,
            decreases seen@.len() - m,
        {
            if seen[m] == t.texture_path {
                dup = true;
                break;
            }
            m = m + 1;
        }
        let ghost d0 = distinct_textures(sources@, k as int);
        proof {
            lemma_first_with_path_iff(sources@, k as int);
            if dup {
                let i = choose|i: int| 0 <= i < seen@.len() && seen@[i]@ == t.texture_path@;
                assert(d0[i].texture_path@ == sources@[k as int].texture_path@);
                assert(!first_with_path(sources@, k as int));
                assert(distinct_textures(sources@, k as int + 1) == d0);
            } else {
                assert forall|i: int| 0 <= i < d0.len() implies d0[i].texture_path@ != sources@[k as int].texture_path@ by {
                    assert(seen@[i]@ == d0[i].texture_path@);
                }
                assert(first_with_path(sources@, k as int));
                assert(distinct_textures(sources@, k as int + 1) == d0.push(sources@[k as int]));
            }
        }
        if !dup {
            let path = convert_to_relative_asset_path(t.texture_path.as_str());
            out.push(
                LevelTilesetData {
                    id: t.id,
                    identifier: t.identifier.clone(),
                    texture_path: path,
                    tile_width: t.tile_width,
                    tile_height: t.tile_height,
                },
            );
            seen.push(t.texture_path.clone());
        }
        k = k + 1;
    }
    out
}

proof fn lemma_distinct_covers(sources: Seq<TilesetSource>, k: int)
    requires
        0 <= k <= sources.len(),
    ensures
        forall|j: int|
            0 <= j < k ==> exists|i: int|
                0 <= i < distinct_textures(sources, k).len() && #[trigger] distinct_textures(sources, k)[i].texture_path@
                    == (#[trigger] sources[j]).texture_path@,
        forall|i: int|
            0 <= i < distinct_textures(sources, k).len() ==> exists|j: int|
                0 <= j < k && #[trigger] distinct_textures(sources, k)[i] == #[trigger] sources[j],
    decreases k,
{
    if k > 0 {
        lemma_distinct_covers(sources, k - 1);
        let prev = distinct_textures(sources, k - 1);
        let d = distinct_textures(sources, k);
        if first_with_path(sources, k - 1) {
            assert(d == prev.push(sources[k - 1]));
            assert forall|j: int| 0 <= j < k implies exists|i: int|
                0 <= i < d.len() && #[trigger] d[i].texture_path@ == (#[trigger] sources[j]).texture_path@ by {
                if j == k - 1 {
                    assert(d[d.len() - 1] == sources[j]);
                } else {
                    let i = choose|i: int|
                        0 <= i < prev.len() && #[trigger] prev[i].texture_path@ == (#[trigger] sources[j]).texture_path@;
                    assert(d[i] == prev[i]);
                }
            }
            assert forall|i: int| 0 <= i < d.len() implies exists|j: int| 0 <= j < k && #[trigger] d[i] == #[trigger] sources[j] by {
                if i == d.len() - 1 {
                    assert(d[i] == sources[k - 1]);
                } else {
                    assert(d[i] == prev[i]);
                    let j = choose|j: int| 0 <= j < k - 1 && #[trigger] prev[i] == #[trigger] sources[j];
                }
            }
        } else {
            assert(d == prev);
            let j0 = choose|j: int| 0 <= j < k - 1 && #[trigger] sources[j].texture_path@ != sources[k - 1].texture_path@ == false;
            assert forall|j: int| 0 <= j < k implies exists|i: int|
                0 <= i < d.len() && #[trigger] d[i].texture_path@ == (#[trigger] sources[j]).texture_path@ by {
                if j == k - 1 {
                    let i = choose|i: int|
                        0 <= i < prev.len() && #[trigger] prev[i].texture_path@ == (#[trigger] sources[j0]).texture_path@;
                    assert(d[i].texture_path@ == sources[j].texture_path@);
                } else {
                    let i = choose|i: int|
                        0 <= i < prev.len() && #[trigger] prev[i].texture_path@ == (#[trigger] sources[j]).texture_path@;
                }
            }
        }
    }
}

proof fn lemma_first_with_path_iff(sources: Seq<TilesetSource>, k: int)
    requires
        0 <= k < sources.len(),
    ensures
        first_with_path(sources, k) <==> !exists|i: int|
            0 <= i < distinct_textures(sources, k).len() && distinct_textures(sources, k)[i].texture_path@
                == sources[k].texture_path@,
{
    lemma_distinct_covers(sources, k);
    let d = distinct_textures(sources, k);
    if first_with_path(sources, k) {
        if exists|i: int| 0 <= i < d.len() && d[i].texture_path@ == sources[k].texture_path@ {
            let i = choose|i: int| 0 <= i < d.len() && d[i].texture_path@ == sources[k].texture_path@;
            let j = choose|j: int| 0 <= j < k && #[trigger] d[i] == #[trigger] sources[j];
            assert(sources[j].texture_path@ != sources[k].texture_path@);
        }
    } else {
        let j = choose|j: int| 0 <= j < k && !(#[trigger] sources[j].texture_path@ != sources[k].texture_path@);
        let i = choose|i: int| 0 <= i < d.len() && #[trigger] d[i].texture_path@ == (#[trigger] sources[j]).texture_path@;
        assert(d[i].texture_path@ == sources[k].texture_path@);
    }
}

/// The name of the layer a saved scene keeps its tiles in.
pub open spec fn saved_layer_name() -> Seq<char> {
    seq!['L', 'a', 'y', 'e', 'r', ' ', '0']
}

/// A layer of a saved scene's tilemap.
#[derive(Debug, Clone)]
pub struct LevelLayerData {
    pub id: u32,
    pub name: String,
    pub visible: bool,
    pub tiles: Vec<LevelTileInstance>,
}

/// The tilemap a saved scene records, but for its grid size, which the
/// caller holds.
#[derive(Debug, Clone)]
pub struct LevelTilemapData {
    pub map_width: u32,
    pub map_height: u32,
    pub tilesets: Vec<LevelTilesetData>,
    pub selected_tileset_id: Option<u32>,
    pub layers: Vec<LevelLayerData>,
}

/// `layers` is the single layer a saved scene stores: id 0, named
/// "Layer 0", visible, holding `tiles`.
pub open spec fn saved_layers_of(layers: Seq<LevelLayerData>, tiles: Seq<LevelTileInstance>) -> bool {
    &&& layers.len() == 1
    &&& layers[0].id == 0
    &&& layers[0].name@ == saved_layer_name()
    &&& layers[0].visible
    &&& layers[0].tiles@ == tiles
}

/// The layers a saved scene stores its painted tiles in: a single visible
/// layer with id 0, named "Layer 0".
pub fn saved_layers(tiles: Vec<LevelTileInstance>) -> (r: Vec<LevelLayerData>)
    ensures
        saved_layers_of(r@, tiles@),
{
    let name = "Layer 0";
    proof {
        reveal_strlit("Layer 0");
    }
    let layer_name = String::from_str(name);
    assert(layer_name@ =~= saved_layer_name());
    let mut layers: Vec<LevelLayerData> = Vec::new();
    layers.push(LevelLayerData { id: 0, name: layer_name, visible: true, tiles });
    layers
}

/// The tilemap a scene saves from the canvas: the canvas size, the
/// tilesets of `sources` (each texture once, paths made relative), the
/// selected tileset, and the visible canvas tiles in grid order in a single
/// layer.
pub fn capture_tilemap_state(
    canvas: &TilemapCanvas,
    sources: &Vec<TilesetSource>,
    selected_tileset_id: Option<u32>,
) -> (r: LevelTilemapData)
    requires
        canvas.wf(),
        forall|k: int| 0 <= k < sources@.len() ==> relative_path_ready(#[trigger] sources@[k].texture_path@),
    ensures
        r.map_width == canvas.width,
        r.map_height == canvas.height,
        r.tilesets@.len() == distinct_textures(sources@, sources@.len() as int).len(),
        forall|i: int|
            0 <= i < r.tilesets@.len() ==> level_tileset_row(
                #[trigger] r.tilesets@[i],
                distinct_textures(sources@, sources@.len() as int)[i],
            ),
        r.selected_tileset_id == selected_tileset_id,
        saved_layers_of(r.layers@, captured(canvas.tiles@, canvas.width, canvas.tiles@.len() as int)),
{
    let tiles = canvas.capture_tiles();
    let tilesets = level_tilesets(sources);
    let layers = saved_layers(tiles);
    LevelTilemapData { map_width: canvas.width, map_height: canvas.height, tilesets, selected_tileset_id, layers }
}

/// The scene a project reopens after the active scene was saved to a file
/// named `file_name`: that file; unchanged when the path names no file.
pub fn last_opened_after_save(last_opened_scene: &mut Option<String>, file_name: Option<String>)
    ensures
        match file_name {
            Some(f) => *final(last_opened_scene) matches Some(s) && s@ == f@,
            None => *final(last_opened_scene) == *old(last_opened_scene),
        },
{
    if let Some(f) = file_name {
        *last_opened_scene = Some(f);
    }
}

/// Records in a project's settings that the scene saved to `scene_path`
/// is the one to reopen: the path's file name, when it has one in Unicode
/// (see `last_opened_after_save`).
pub fn update_last_opened_scene(last_opened_scene: &mut Option<String>, scene_path: &str)
    ensures
        *final(last_opened_scene) == *old(last_opened_scene) || (*final(last_opened_scene) matches Some(s)
            && piece_of(scene_path@, s@)),
        forall|n: Seq<char>|
            #[trigger] path_ends_in(scene_path@, n) ==> (*final(last_opened_scene) matches Some(s) && s@ == n),
{
    let file_name = path_file_name(scene_path);
    last_opened_after_save(last_opened_scene, file_name);
}

/// Calls `Path::file_name` on `path` and turns the name into a `String`
/// (the name in a `&str` path is valid Unicode). Which characters separate
/// path components depends on the platform, so only what holds on every
/// platform is stated: a file name is the path's last component, a
/// non-empty part of the path; and when the path ends in a plain file name
/// (see `path_ends_in`), that name is the result.
#[verifier::external_body]
fn path_file_name(path: &str) -> (r: Option<String>)
    ensures
        r matches Some(s) ==> piece_of(path@, s@) && forall|n: Seq<char>|
            #[trigger] path_ends_in(path@, n) ==> s@ == n,
        r is None ==> forall|n: Seq<char>| !#[trigger] path_ends_in(path@, n),
{
    std::path::Path::new(path).file_name().and_then(|name| name.to_str()).map(|name| name.to_string())
}

/// A file operation on scenes asked for from the keyboard.
#[derive(Debug, Clone, Copy, PartialEq, Eq, Structural)]
pub enum SceneFileAction {
    /// Save the active scene to its file.
    Save,
    /// Ask for a file and save the active scene there.
    SaveAs,
    /// Ask for a scene file and open it in a new tab.
    Open,
}

/// The scene file operations of a frame, in order: Ctrl+S saves the active
/// scene (to its file, or through the save dialog when it has none),
/// Ctrl+Shift+S also opens the save dialog, Ctrl+O opens a scene. Saving
/// needs an active scene (`has_active`; `has_path` says whether it has a
/// file).
pub open spec fn scene_file_actions(
    ctrl: bool,
    shift: bool,
    s_pressed: bool,
    o_pressed: bool,
    has_active: bool,
    has_path: bool,
) -> Seq<SceneFileAction> {
    let save: Seq<SceneFileAction> = if ctrl && s_pressed && has_active {
        if has_path {
            seq![SceneFileAction::Save]
        } else {
            seq![SceneFileAction::SaveAs]
        }
    } else {
        Seq::empty()
    };
    let save_as: Seq<SceneFileAction> = if ctrl && shift && s_pressed && has_active {
        seq![SceneFileAction::SaveAs]
    } else {
        Seq::empty()
    };
    let open: Seq<SceneFileAction> = if ctrl && o_pressed {
        seq![SceneFileAction::Open]
    } else {
        Seq::empty()
    };
    save + save_as + open
}

/// The scene file operations asked for this frame, in the order they run.
pub fn handle_save_load(
    ctrl: bool,
    shift: bool,
    s_pressed: bool,
    o_pressed: bool,
    has_active: bool,
    has_path: bool,
) -> (r: Vec<SceneFileAction>)
    ensures
        r@ == scene_file_actions(ctrl, shift, s_pressed, o_pressed, has_active, has_path),
{
    let mut actions: Vec<SceneFileAction> = Vec::new();
    if ctrl && s_pressed && has_active {
        if has_path {
            actions.push(SceneFileAction::Save);
        } else {
            actions.push(SceneFileAction::SaveAs);
        }
    }
    if ctrl && shift && s_pressed && has_active {
        actions.push(SceneFileAction::SaveAs);
    }
    if ctrl && o_pressed {
        actions.push(SceneFileAction::Open);
    }
    assert(actions@ =~= scene_file_actions(ctrl, shift, s_pressed, o_pressed, has_active, has_path));
    actions
}

/// Whether the scene last opened in a project is loaded when it opens.
#[derive(Debug, Clone, Copy, PartialEq, Eq, Structural)]
pub struct SceneAutoLoader {
    pub should_auto_load: bool,
    pub has_loaded: bool,
}

impl Default for SceneAutoLoader {
    fn default() -> (r: Self)
        ensures
            !r.should_auto_load,
            !r.has_loaded,
    {
        SceneAutoLoader { should_auto_load: false, has_loaded: false }
    }
}

impl SceneAutoLoader {
    /// The scene to load for the open project, once: the last opened
    /// scene, else the project's default scene. With neither, there is
    /// nothing to load and the loader is done. Nothing happens before a
    /// project is open or after the loader is done.
    pub fn scene_to_load(&mut self, has_project: bool, last_opened: Option<&str>, default_scene: Option<&str>) -> (r:
        Option<String>)
        ensures
            old(self).has_loaded || !has_project ==> r is None && *final(self) == *old(self),
            !old(self).has_loaded && has_project ==> match last_opened {
                Some(name) => r matches Some(s) && s@ == name@ && *final(self) == *old(self),
                None => match default_scene {
                    Some(name) => r matches Some(s) && s@ == name@ && *final(self) == *old(self),
                    None => r is None && final(self).has_loaded && final(self).should_auto_load
                        == old(self).should_auto_load,
                },
            },
    {
        if self.has_loaded || !has_project {
            return None;
        }
        match last_opened {
            Some(name) => Some(String::from_str(name)),
            None => match default_scene {
                Some(name) => Some(String::from_str(name)),
                None => {
                    self.has_loaded = true;
                    None
                },
            },
        }
    }

    /// Records how loading the chosen scene went: a loaded scene finishes
    /// the loader; a missing or unreadable one leaves it to try again.
    pub fn scene_loaded(&mut self, loaded: bool)
        ensures
            final(self).has_loaded == (old(self).has_loaded || loaded),
            final(self).should_auto_load == old(self).should_auto_load,
    {
        if loaded {
            self.has_loaded = true;
        }
    }

    /// A project is open (again): its last scene is to be loaded anew.
    pub fn reset_auto_loader_on_project_change(&mut self, has_project: bool)
        ensures
            final(self).has_loaded == (old(self).has_loaded && !has_project),
            final(self).should_auto_load == old(self).should_auto_load,
    {
        if has_project {
            self.has_loaded = false;
        }
    }
}

/// Ctrl+S with an active scene saves it to its file when it has one and
/// asks for a file otherwise; Ctrl+O opens a scene; without Ctrl no file
/// operation happens.
pub proof fn lemma_scene_file_keys(shift: bool, s_pressed: bool, o_pressed: bool, has_active: bool, has_path: bool)
    ensures
        scene_file_actions(true, false, true, false, true, true) == seq![SceneFileAction::Save],
        scene_file_actions(true, false, true, false, true, false) == seq![SceneFileAction::SaveAs],
        scene_file_actions(true, false, false, true, has_active, has_path) == seq![SceneFileAction::Open],
        scene_file_actions(true, shift, true, o_pressed, false, has_path).len() == (if o_pressed { 1int } else { 0 }),
        scene_file_actions(false, shift, s_pressed, o_pressed, has_active, has_path).len() == 0,
{
    assert(scene_file_actions(true, false, true, false, true, true) =~= seq![SceneFileAction::Save]);
    assert(scene_file_actions(true, false, true, false, true, false) =~= seq![SceneFileAction::SaveAs]);
    assert(scene_file_actions(true, false, false, true, has_active, has_path) =~= seq![SceneFileAction::Open]);
}

} // verus!
