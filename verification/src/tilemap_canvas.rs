//! The tilemap canvas of the viewport as a grid of tiles, and how a scene's
//! tiles are captured from it and restored onto it when scenes are saved,
//! loaded or switched.

use vstd::prelude::*;
use vstd::arithmetic::div_mod::{lemma_fundamental_div_mod, lemma_fundamental_div_mod_converse};

verus! {

/// One cell of the canvas: the tileset index it shows, and whether it shows.
#[derive(Debug, Clone, Copy, PartialEq, Eq, Structural)]
pub struct CanvasTile {
    pub texture_index: u32,
    pub visible: bool,
}

/// A painted tile as a scene stores it.
#[derive(Debug, Clone, Copy, PartialEq, Eq, Structural)]
pub struct LevelTileInstance {
    pub x: u32,
    pub y: u32,
    pub tile_id: u32,
}

/// The canvas: `width` by `height` cells, row by row from `y = 0`.
#[derive(Debug, Clone)]
pub struct TilemapCanvas {
    pub width: u32,
    pub height: u32,
    pub tiles: Vec<CanvasTile>,
}

/// A cell that shows nothing.
pub open spec fn blank_tile() -> CanvasTile {
    CanvasTile { texture_index: 0, visible: false }
}

impl TilemapCanvas {
    /// The grid holds exactly one cell per position.
    pub open spec fn wf(&self) -> bool {
        self.tiles@.len() == self.width * self.height
    }
}

/// The visible cells among the first `n` cells of `tiles` (a grid `width`
/// cells wide), in grid order, as tile instances.
pub open spec fn captured(tiles: Seq<CanvasTile>, width: u32, n: int) -> Seq<LevelTileInstance>
    decreases n,
{
    if n <= 0 {
        Seq::empty()
    } else {
        let prev = captured(tiles, width, n - 1);
        let k = n - 1;
        if tiles[k].visible {
            prev.push(LevelTileInstance { x: (k % width as int) as u32, y: (k / width as int) as u32, tile_id: tiles[k].texture_index })
        } else {
            prev
        }
    }
}

/// `tiles` (a grid `width` by `height`) after showing each instance of
/// `insts` in turn on its cell; instances off the grid are skipped.
pub open spec fn restored(tiles: Seq<CanvasTile>, width: u32, height: u32, insts: Seq<LevelTileInstance>) -> Seq<CanvasTile>
    decreases insts.len(),
{
    if insts.len() == 0 {
        tiles
    } else {
        let prev = restored(tiles, width, height, insts.drop_last());
        let t = insts.last();
        if t.x < width && t.y < height {
            prev.update(t.y * width + t.x, CanvasTile { texture_index: t.tile_id, visible: true })
        } else {
            prev
        }
    }
}

proof fn lemma_cell_index(x: u32, y: u32, width: u32, height: u32)
    requires
        x < width,
        y < height,
    ensures
        0 <= y * width + x < width * height,
        (y * width + x) / (width as int) == y,
        (y * width + x) % (width as int) == x,
{
    assert(0 <= y * width + x < width * height) by (nonlinear_arith)
        requires
            x < width,
            y < height,
    ;
    lemma_fundamental_div_mod_converse((y * width + x) as int, width as int, y as int, x as int);
}

impl TilemapCanvas {
    /// Hides every cell and resets what it shows.
    pub fn clear(&mut self)
        ensures
            final(self).width == old(self).width,
            final(self).height == old(self).height,
            final(self).tiles@ == Seq::new(old(self).tiles@.len(), |k: int| blank_tile()),
    {
        let n = self.tiles.len();
        let mut k: usize = 0;
        while k < n
            invariant
                n == self.tiles@.len(),
                n == old(self).tiles@.len(),
                self.width == old(self).width,
                self.height == old(self).height,
                k <= n,
                forall|j: int| 0 <= j < k ==> self.tiles@[j] == blank_tile(),
            decreases n - k,
        {
            self.tiles.set(k, CanvasTile { texture_index: 0, visible: false });
            k = k + 1;
        }
        assert(self.tiles@ =~= Seq::new(old(self).tiles@.len(), |k: int| blank_tile()));
    }

    /// Shows each tile of `insts` in turn on its cell; tiles off the grid
    /// are skipped, and a later tile on a cell replaces an earlier one.
    pub fn restore_tiles(&mut self, insts: &Vec<LevelTileInstance>)
        requires
            old(self).wf(),
        ensures
            final(self).width == old(self).width,
            final(self).height == old(self).height,
            final(self).tiles@ == restored(old(self).tiles@, old(self).width, old(self).height, insts@),
    {
        let ghost t0 = self.tiles@;
        let mut i: usize = 0;
        while i < insts.len()
            invariant
                self.width == old(self).width,
                self.height == old(self).height,
                t0 == old(self).tiles@,
                t0.len() == self.width * self.height,
                i <= insts@.len(),
                self.tiles@ == restored(t0, self.width, self.height, insts@.take(i as int)),
                self.tiles@.len() == t0.len(),
            decreases insts@.len() - i,
        {
            let t = insts[i];
            proof {
                let s = insts@.take(i as int + 1);
                assert(s.drop_last() =~= insts@.take(i as int));
                assert(s.last() == t);
                lemma_restored_len(t0, self.width, self.height, insts@.take(i as int));
            }
            if t.x < self.width && t.y < self.height {
                let len = self.tiles.len();
                proof {
                    lemma_cell_index(t.x, t.y, self.width, self.height);
                    assert(t.y * self.width + t.x < len);
                    assert(t.y * self.width <= t.y * self.width + t.x);
                }
                let idx = t.y as usize * self.width as usize + t.x as usize;
                self.tiles.set(idx, CanvasTile { texture_index: t.tile_id, visible: true });
            }
            proof {
                lemma_restored_len(t0, self.width, self.height, insts@.take(i as int + 1));
            }
            i = i + 1;
        }
        assert(insts@.take(i as int) =~= insts@);
    }

    /// The visible cells, row by row from `y = 0` and left to right, as
    /// tile instances.
    pub fn capture_tiles(&self) -> (r: Vec<LevelTileInstance>)
        requires
            self.wf(),
        ensures
            r@ == captured(self.tiles@, self.width, self.tiles@.len() as int),
    {
        let n = self.tiles.len();
        let w = self.width;
        let mut out: Vec<LevelTileInstance> = Vec::new();
        let mut k: usize = 0;
        let mut x: u32 = 0;
        let mut y: u32 = 0;
        assert(n > 0 ==> w > 0) by (nonlinear_arith)
            requires
                n == w * self.height,
        ;
        while k < n
            invariant
                n == self.tiles@.len(),
                n == w * self.height,
                w == self.width,
                k <= n,
                k == y * w + x,
                k < n ==> x < w,
                out@ == captured(self.tiles@, w, k as int),
            decreases n - k,
        {
            proof {
                assert(y < self.height) by (nonlinear_arith)
                    requires
                        k == y * w + x,
                        k < n,
                        n == w * self.height,
                ;
                lemma_cell_index(x, y, w, self.height);
            }
            let t = self.tiles[k];
            if t.visible {
                out.push(LevelTileInstance { x, y, tile_id: t.texture_index });
            }
            k = k + 1;
            if x + 1 == w {
                assert((y + 1) * w == y * w + w) by (nonlinear_arith);
                x = 0;
                y = y + 1;
            } else {
                x = x + 1;
            }
        }
        out
    }
}

proof fn lemma_restored_len(tiles: Seq<CanvasTile>, width: u32, height: u32, insts: Seq<LevelTileInstance>)
    requires
        tiles.len() == width * height,
    ensures
        restored(tiles, width, height, insts).len() == tiles.len(),
    decreases insts.len(),
{
    if insts.len() > 0 {
        lemma_restored_len(tiles, width, height, insts.drop_last());
        let t = insts.last();
        if t.x < width && t.y < height {
            lemma_cell_index(t.x, t.y, width, height);
        }
    }
}

/// Cell `k` of `tiles` as it shows: its tile when visible, blank otherwise.
pub open spec fn shown(tiles: Seq<CanvasTile>, k: int) -> CanvasTile {
    if tiles[k].visible {
        CanvasTile { texture_index: tiles[k].texture_index, visible: true }
    } else {
        blank_tile()
    }
}

proof fn lemma_restore_captured_prefix(tiles: Seq<CanvasTile>, width: u32, height: u32, n: int)
    requires
        tiles.len() == width * height,
        0 <= n <= tiles.len(),
    ensures
        restored(Seq::new(tiles.len(), |k: int| blank_tile()), width, height, captured(tiles, width, n))
            == Seq::new(tiles.len(), |k: int| if k < n { shown(tiles, k) } else { blank_tile() }),
    decreases n,
{
    let blank = Seq::new(tiles.len(), |k: int| blank_tile());
    if n == 0 {
        assert(blank =~= Seq::new(tiles.len(), |k: int| if k < 0 { shown(tiles, k) } else { blank_tile() }));
    } else {
        lemma_restore_captured_prefix(tiles, width, height, n - 1);
        let prev = captured(tiles, width, n - 1);
        let k = n - 1;
        if tiles[k].visible {
            assert(width > 0) by (nonlinear_arith)
                requires
                    tiles.len() == width * height,
                    k < tiles.len(),
                    0 <= k,
            ;
            lemma_fundamental_div_mod(k, width as int);
            let x = k % (width as int);
            let y = k / (width as int);
            assert(y < height) by (nonlinear_arith)
                requires
                    k == width * y + x,
                    0 <= x,
                    k < width * height,
                    width > 0,
            ;
            assert(0 <= y) by (nonlinear_arith)
                requires
                    k == width * y + x,
                    0 <= x < width,
                    0 <= k,
            ;
            let inst = LevelTileInstance { x: x as u32, y: y as u32, tile_id: tiles[k].texture_index };
            assert(prev.push(inst).drop_last() =~= prev);
            assert(y * width + x == k) by (nonlinear_arith)
                requires
                    k == width * y + x,
            ;
        }
        assert(restored(blank, width, height, captured(tiles, width, n)) =~= Seq::new(
            tiles.len(),
            |j: int| if j < n { shown(tiles, j) } else { blank_tile() },
        ));
    }
}

proof fn lemma_captured_same_shown(a: Seq<CanvasTile>, b: Seq<CanvasTile>, width: u32, n: int)
    requires
        0 <= n <= a.len(),
        a.len() == b.len(),
        forall|k: int| 0 <= k < n ==> #[trigger] shown(a, k) == shown(b, k),
    ensures
        captured(a, width, n) == captured(b, width, n),
    decreases n,
{
    if n > 0 {
        lemma_captured_same_shown(a, b, width, n - 1);
        assert(shown(a, n - 1) == shown(b, n - 1));
    }
}

/// Saving a scene's tilemap and loading it back shows the same tiles:
/// restoring the tiles captured from a canvas onto a blank canvas of the
/// same size gives a canvas whose every cell shows what the original cell
/// showed, so capturing it again gives the same tiles.
pub proof fn lemma_capture_restore_roundtrip(canvas: TilemapCanvas)
    requires
        canvas.wf(),
    ensures
        ({
            let n = canvas.tiles@.len();
            let blank = Seq::new(n, |k: int| blank_tile());
            let saved = captured(canvas.tiles@, canvas.width, n as int);
            let loaded = restored(blank, canvas.width, canvas.height, saved);
            &&& loaded == Seq::new(n, |k: int| shown(canvas.tiles@, k))
            &&& captured(loaded, canvas.width, n as int) == saved
        }),
{
    let tiles = canvas.tiles@;
    let n = tiles.len();
    lemma_restore_captured_prefix(tiles, canvas.width, canvas.height, n as int);
    let loaded = Seq::new(n, |k: int| shown(tiles, k));
    assert(Seq::new(n, |k: int| if k < n { shown(tiles, k) } else { blank_tile() }) =~= loaded);
    assert forall|k: int| 0 <= k < n implies #[trigger] shown(loaded, k) == shown(tiles, k) by {}
    lemma_captured_same_shown(loaded, tiles, canvas.width, n as int);
}

/// `new` is `old` with its cells replaced by `tiles`.
pub open spec fn canvas_with_tiles(old: TilemapCanvas, new: TilemapCanvas, tiles: Seq<CanvasTile>) -> bool {
    new.width == old.width && new.height == old.height && new.tiles@ == tiles
}

/// `new` and `prev1` are the canvas and remembered tab after a frame of
/// the scene-switch watcher on `old` and `prev0` with `current` active,
/// and `saved` the tiles it captured: nothing changes while the same tab
/// stays active; otherwise the tab is remembered and, when there is a
/// canvas, its tiles are captured for the scene left (when there was one
/// and it is still open) and it is cleared and shows `incoming`.
pub open spec fn scene_switched(
    old: Option<TilemapCanvas>,
    new: Option<TilemapCanvas>,
    prev0: Option<usize>,
    prev1: Option<usize>,
    current: usize,
    previous_open: bool,
    incoming: Option<Seq<LevelTileInstance>>,
    saved: Option<Seq<LevelTileInstance>>,
) -> bool {
    if prev0 == Some(current) {
        new == old && prev1 == prev0 && saved is None
    } else {
        &&& prev1 == Some(current)
        &&& match old {
            Some(c) => {
                let blank = Seq::new(c.tiles@.len(), |k: int| blank_tile());
                &&& new matches Some(n) && canvas_with_tiles(
                    c,
                    n,
                    match incoming {
                        Some(ts) => restored(blank, c.width, c.height, ts),
                        None => blank,
                    },
                )
                &&& match saved {
                    Some(s) => prev0 is Some && previous_open && s == captured(c.tiles@, c.width, c.tiles@.len() as int),
                    None => !(prev0 is Some && previous_open),
                }
            },
            None => new is None && saved is None,
        }
    }
}

/// When the active scene tab changes (it is not `previous_scene`): the
/// canvas tiles are captured and returned for the scene left behind (when
/// there was one, it is still open, and there is a canvas), the canvas is
/// cleared, and the first layer of the new scene's tilemap (`incoming`,
/// when it has one) is shown on it. The tab now active is remembered.
/// Nothing happens while the same tab stays active.
pub fn sync_tilemap_on_scene_switch(
    canvas: &mut Option<TilemapCanvas>,
    previous_scene: &mut Option<usize>,
    current_index: usize,
    previous_scene_open: bool,
    incoming: Option<&Vec<LevelTileInstance>>,
) -> (saved: Option<Vec<LevelTileInstance>>)
    requires
        *old(canvas) matches Some(c) ==> c.wf(),
    ensures
        scene_switched(
            *old(canvas),
            *final(canvas),
            *old(previous_scene),
            *final(previous_scene),
            current_index,
            previous_scene_open,
            match incoming {
                Some(ts) => Some(ts@),
                None => None,
            },
            match saved {
                Some(s) => Some(s@),
                None => None,
            },
        ),
{
    if *previous_scene == Some(current_index) {
        return None;
    }
    let saved = match canvas.take() {
        Some(mut c) => {
            let saved = if previous_scene.is_some() && previous_scene_open {
                Some(c.capture_tiles())
            } else {
                None
            };
            c.clear();
            match incoming {
                Some(tiles) => c.restore_tiles(tiles),
                None => {},
            }
            *canvas = Some(c);
            saved
        },
        None => None,
    };
    *previous_scene = Some(current_index);
    saved
}

/// Whether the tiles of a scene just loaded still have to be shown on the
/// canvas.
#[derive(Debug, Clone, Copy, PartialEq, Eq, Structural)]
pub struct PendingTilemapRestore {
    pub should_restore: bool,
}

impl Default for PendingTilemapRestore {
    fn default() -> (r: Self)
        ensures
            !r.should_restore,
    {
        PendingTilemapRestore { should_restore: false }
    }
}

/// What the pending restore of a loaded scene does this frame: nothing
/// unless a restore is pending and the active scene has a tilemap
/// (`has_tilemap`). Then the tilemap's grid settings and tilesets are to be
/// applied (the result is `true`); when the canvas already exists, the
/// first layer's tiles (`tiles`, when there is a layer) are shown on it and
/// the restore is done; otherwise it stays pending for the next frame.
pub fn restore_tilemap_from_level(
    pending: &mut PendingTilemapRestore,
    canvas: &mut Option<TilemapCanvas>,
    has_tilemap: bool,
    tiles: Option<&Vec<LevelTileInstance>>,
) -> (apply_settings: bool)
    requires
        *old(canvas) matches Some(c) ==> c.wf(),
    ensures
        apply_settings == (old(pending).should_restore && has_tilemap),
        !apply_settings ==> *final(pending) == *old(pending) && *final(canvas) == *old(canvas),
        apply_settings ==> match *old(canvas) {
            Some(c) => {
                &&& !final(pending).should_restore
                &&& *final(canvas) matches Some(n) && canvas_with_tiles(
                    c,
                    n,
                    match tiles {
                        Some(ts) => restored(c.tiles@, c.width, c.height, ts@),
                        None => c.tiles@,
                    },
                )
            },
            None => final(pending).should_restore && *final(canvas) is None,
        },
{
    if !pending.should_restore || !has_tilemap {
        return false;
    }
    match canvas.take() {
        Some(mut c) => {
            match tiles {
                Some(ts) => c.restore_tiles(ts),
                None => {},
            }
            *canvas = Some(c);
            pending.should_restore = false;
        },
        None => {},
    }
    true
}

/// Switching back to a scene shows its tiles as they were when it was left:
/// the tiles captured when leaving tab `a` for `b`, loaded again when
/// switching from `b` back to `a` onto the canvas as it is by then (of the
/// same size), show on every cell what the canvas showed when `a` was left.
pub proof fn lemma_switch_back_restores(
    left: TilemapCanvas,
    after_leaving: Option<TilemapCanvas>,
    before_return: TilemapCanvas,
    after_return: Option<TilemapCanvas>,
    a: usize,
    b: usize,
    prev_after_leaving: Option<usize>,
    prev_after_return: Option<usize>,
    incoming_b: Option<Seq<LevelTileInstance>>,
    saved: Seq<LevelTileInstance>,
    saved_b: Option<Seq<LevelTileInstance>>,
    b_open: bool,
)
    requires
        left.wf(),
        a != b,
        scene_switched(Some(left), after_leaving, Some(a), prev_after_leaving, b, true, incoming_b, Some(saved)),
        before_return.width == left.width,
        before_return.height == left.height,
        before_return.wf(),
        scene_switched(Some(before_return), after_return, Some(b), prev_after_return, a, b_open, Some(saved), saved_b),
    ensures
        after_return matches Some(c) && c.tiles@ == Seq::new(left.tiles@.len(), |k: int| shown(left.tiles@, k)),
{
    lemma_capture_restore_roundtrip(left);
    assert(before_return.tiles@.len() == left.tiles@.len());
    assert(Seq::new(before_return.tiles@.len(), |k: int| blank_tile()) =~= Seq::new(left.tiles@.len(), |k: int| blank_tile()));
}

} // verus!
