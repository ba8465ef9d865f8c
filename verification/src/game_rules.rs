//! Integer rules of the game servers and clients: which IntGrid cells
//! collide, what an attack does to a monster's health, how level entities
//! are numbered in their tables, and a player's circle statistics.

use vstd::prelude::*;

verus! {

/// The column of grid index `index` in a layer `width` cells wide, with
/// the remainder taken as 32-bit signed integers do (sign of the index).
pub open spec fn grid_col(index: int, width: int) -> int {
    if width > 0 {
        index % width
    } else {
        index % (-width)
    }
}

/// The row of grid index `index` in a layer `width` cells wide, with the
/// quotient rounded toward zero as 32-bit signed integers do.
pub open spec fn grid_row(index: int, width: int) -> int {
    if width > 0 {
        index / width
    } else {
        -(index / (-width))
    }
}

/// The cells of an IntGrid layer (values in grid order) that collide:
/// those whose value is 1, as (column, row) pairs, in grid order.
pub open spec fn collision_cells(values: Seq<i64>, width: int) -> Seq<(int, int)>
    decreases values.len(),
{
    if values.len() == 0 {
        Seq::empty()
    } else {
        let k = values.len() - 1;
        let prev = collision_cells(values.drop_last(), width);
        if values[k] == 1 {
            prev.push((grid_col(k, width), grid_row(k, width)))
        } else {
            prev
        }
    }
}

/// The grid cells of an IntGrid layer `layer_width` cells wide that become
/// collision tiles: those whose value is 1, in grid order, as (column, row).
pub fn intgrid_collision_cells(values: &Vec<i64>, layer_width: i32) -> (r: Vec<(i32, i32)>)
    requires
        values@.len() <= i32::MAX,
        layer_width == 0 ==> forall|k: int| 0 <= k < values@.len() ==> values@[k] != 1,
    ensures
        r@.map_values(|c: (i32, i32)| (c.0 as int, c.1 as int)) == collision_cells(values@, layer_width as int),
{
    let mut out: Vec<(i32, i32)> = Vec::new();
    let mut k: usize = 0;
    let w: i64 = layer_width as i64;
    let span: u32 = if w > 0 {
        w as u32
    } else {
        (-w) as u32
    };
    while k < values.len()
        invariant
            k <= values@.len(),
            values@.len() <= i32::MAX,
            w == layer_width,
            span as int == if w > 0 { w as int } else { -w },
            layer_width == 0 ==> forall|j: int| 0 <= j < values@.len() ==> values@[j] != 1,
            out@.map_values(|c: (i32, i32)| (c.0 as int, c.1 as int)) == collision_cells(
                values@.take(k as int),
                layer_width as int,
            ),
        decreases values@.len() - k,
    {
        let v = values[k];
        proof {
            let s = values@.take(k as int + 1);
            assert(s.drop_last() =~= values@.take(k as int));
            assert(s.last() == v);
        }
        if v == 1 {
            let idx: u32 = k as u32;
            let col: u32 = idx % span;
            let quot: u32 = idx / span;
            let row: i32 = if w > 0 {
                quot as i32
            } else {
                -(quot as i32)
            };
            out.push((col as i32, row));
            proof {
                let prev = out@.drop_last();
                assert(out@.map_values(|c: (i32, i32)| (c.0 as int, c.1 as int)) =~= prev.map_values(
                    |c: (i32, i32)| (c.0 as int, c.1 as int),
                ).push((col as int, row as int)));
            }
        }
        k = k + 1;
    }
    assert(values@.take(k as int) =~= values@);
    out
}

/// Damage of one attack.
pub open spec fn attack_damage() -> int {
    10
}

/// What an attack does to a monster in reach.
#[derive(Debug, Clone, Copy, PartialEq, Eq, Structural)]
pub enum MonsterHit {
    /// The monster dies and is removed.
    Killed,
    /// The monster lives on with this health.
    Wounded(i32),
}

/// What an attack does to a monster with `health` that is in reach and in
/// front of the player: it loses 10 health (never going below 0) and dies
/// at 0.
pub fn hit_monster(health: i32) -> (r: MonsterHit)
    requires
        health >= i32::MIN + 10,
    ensures
        health - attack_damage() <= 0 ==> r == MonsterHit::Killed,
        health - attack_damage() > 0 ==> r == MonsterHit::Wounded((health - attack_damage()) as i32),
{
    let left = health - 10;
    let left = if left > 0 {
        left
    } else {
        0
    };
    if left <= 0 {
        MonsterHit::Killed
    } else {
        MonsterHit::Wounded(left)
    }
}

/// The kinds of entity a level places.
#[derive(Debug, Clone, Copy, PartialEq, Eq, Structural)]
pub enum EntityKind {
    Npc,
    Resource,
    Interactive,
    SpawnPoint,
    Player,
}

/// How many of the first `n` entities are of kind `kind`.
pub open spec fn count_kind(kinds: Seq<EntityKind>, n: int, kind: EntityKind) -> nat
    decreases n,
{
    if n <= 0 {
        0
    } else {
        count_kind(kinds, n - 1, kind) + if kinds[n - 1] == kind {
            1nat
        } else {
            0nat
        }
    }
}

proof fn lemma_count_kind_mono(kinds: Seq<EntityKind>, m: int, n: int, kind: EntityKind)
    requires
        0 <= m <= n,
    ensures
        count_kind(kinds, m, kind) <= count_kind(kinds, n, kind),
    decreases n - m,
{
    if m < n {
        lemma_count_kind_mono(kinds, m, n - 1, kind);
    }
}

/// The table ids of a level's entities, in order: each NPC, resource,
/// interactive object and spawn point is numbered from 0 among the entities
/// of its own kind; players get no row (they join when clients connect).
pub fn assign_entity_ids(kinds: &Vec<EntityKind>) -> (r: Vec<Option<u32>>)
    requires
        forall|kind: EntityKind| #[trigger] count_kind(kinds@, kinds@.len() as int, kind) <= u32::MAX,
    ensures
        r@.len() == kinds@.len(),
        forall|k: int|
            0 <= k < kinds@.len() ==> #[trigger] r@[k] == if kinds@[k] == EntityKind::Player {
                None
            } else {
                Some(count_kind(kinds@, k, kinds@[k]) as u32)
            },
{
    let mut ids: Vec<Option<u32>> = Vec::new();
    let mut npc: u32 = 0;
    let mut resource: u32 = 0;
    let mut interactive: u32 = 0;
    let mut spawn: u32 = 0;
    let mut k: usize = 0;
    while k < kinds.len()
        invariant
            k <= kinds@.len(),
            forall|kind: EntityKind| #[trigger] count_kind(kinds@, kinds@.len() as int, kind) <= u32::MAX,
            ids@.len() == k,
            npc == count_kind(kinds@, k as int, EntityKind::Npc),
            resource == count_kind(kinds@, k as int, EntityKind::Resource),
            interactive == count_kind(kinds@, k as int, EntityKind::Interactive),
            spawn == count_kind(kinds@, k as int, EntityKind::SpawnPoint),
            forall|j: int|
                0 <= j < k ==> #[trigger] ids@[j] == if kinds@[j] == EntityKind::Player {
                    None
                } else {
                    Some(count_kind(kinds@, j, kinds@[j]) as u32)
                },
        decreases kinds@.len() - k,
    {
        proof {
            lemma_count_kind_mono(kinds@, k as int + 1, kinds@.len() as int, kinds@[k as int]);
            assert(count_kind(kinds@, kinds@.len() as int, kinds@[k as int]) <= u32::MAX);
        }
        match kinds[k] {
            EntityKind::Npc => {
                ids.push(Some(npc));
                npc = npc + 1;
            },
            EntityKind::Resource => {
                ids.push(Some(resource));
                resource = resource + 1;
            },
            EntityKind::Interactive => {
                ids.push(Some(interactive));
                interactive = interactive + 1;
            },
            EntityKind::SpawnPoint => {
                ids.push(Some(spawn));
                spawn = spawn + 1;
            },
            EntityKind::Player => {
                ids.push(None);
            },
        }
        k = k + 1;
    }
    ids
}

/// A player's circle count and total mass, each circle counted as 10 mass,
/// from the owners (player ids) of all circles.
pub fn calculate_player_stats(circle_owners: &Vec<u32>, player_id: u32) -> (r: (u32, usize))
    requires
        10 * circle_owners@.filter(|owner: u32| owner == player_id).len() <= u32::MAX,
    ensures
        r.1 == circle_owners@.filter(|owner: u32| owner == player_id).len(),
        r.0 == 10 * r.1,
{
    let ghost owned = |owner: u32| owner == player_id;
    let mut total_mass: u32 = 0;
    let mut count: usize = 0;
    let mut k: usize = 0;
    while k < circle_owners.len()
        invariant
            k <= circle_owners@.len(),
            owned == (|owner: u32| owner == player_id),
            10 * circle_owners@.filter(owned).len() <= u32::MAX,
            count == circle_owners@.take(k as int).filter(owned).len(),
            total_mass == 10 * count,
        decreases circle_owners@.len() - k,
    {
        proof {
            let s = circle_owners@.take(k as int + 1);
            assert(s.drop_last() =~= circle_owners@.take(k as int));
            assert(s.last() == circle_owners@[k as int]);
            reveal(Seq::filter);
            circle_owners@.lemma_filter_take_len(owned, k as int + 1);
        }
        if circle_owners[k] == player_id {
            total_mass = total_mass + 10;
            count = count + 1;
        }
        k = k + 1;
    }
    assert(circle_owners@.take(k as int) =~= circle_owners@);
    (total_mass, count)
}

} // verus!
