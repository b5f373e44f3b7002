use vstd::prelude::*;
use crate::consts::{KIND_ATLAS_SPRITE, KIND_SPRITE, LABEL_LOAD_CURRENT_MAP};
use crate::schedule::{Scheduler, SystemModel, SystemSpec};
use crate::entity::EntityId;
use crate::state::{AppState, Gate, StateMachine};
use crate::world::{Query, World, WorldModel};

verus! {

/// The levels of the game, by file name, and the one being played.
pub struct Levels {
    pub current_level: usize,
    pub levels: Vec<String>,
}

/// Marks the entities that are walls.
pub struct Wall;

/// One row of the map's ground: the atlas cell its tiles are drawn with.
#[derive(Clone, Copy, Debug, PartialEq, Eq, Structural)]
pub struct MapRow {
    pub sprite: usize,
}

/// The walls of one row of the map: for each column whether a wall stands there.
#[derive(Clone, Copy)]
pub struct MapWallRow {
    pub row: i32,
    pub columns: [bool; 16],
}

/// A tile to draw: its column and row on the screen, rows counted from the
/// bottom, and the atlas cell to draw it with.
#[derive(Clone, Copy, Debug, PartialEq, Eq, Structural)]
pub struct TilePlacement {
    pub column: i32,
    pub row: i32,
    pub sprite: usize,
}

/// The atlas cell that walls are drawn with.
pub const WALL_SPRITE: usize = 2;

/// The file names of the levels, in the order they are played.
pub open spec fn level_names() -> Seq<Seq<char>> {
    seq![
        "levels/2_slow_cars.map"@,
        "levels/4_cars.map"@,
        "levels/4_faster_cars.map"@,
        "levels/2_slow_cars_with_wall.map"@,
        "levels/6_slow_cars_with_walls.map"@,
        "levels/4_lanes_closed.map"@,
        "levels/too_busy.map"@,
    ]
}

impl Levels {
    /// The file names of the levels.
    pub open spec fn names(&self) -> Seq<Seq<char>> {
        Seq::new(self.levels@.len(), |i: int| self.levels@[i]@)
    }

    /// The game's levels, with the first one current.
    pub fn new() -> (l: Levels)
        ensures
            l.current_level == 0,
            l.names() == level_names(),
    {
        let mut levels: Vec<String> = Vec::new();
        levels.push("levels/2_slow_cars.map".to_owned());
        levels.push("levels/4_cars.map".to_owned());
        levels.push("levels/4_faster_cars.map".to_owned());
        levels.push("levels/2_slow_cars_with_wall.map".to_owned());
        levels.push("levels/6_slow_cars_with_walls.map".to_owned());
        levels.push("levels/4_lanes_closed.map".to_owned());
        levels.push("levels/too_busy.map".to_owned());
        let l = Levels { current_level: 0, levels };
        assert(l.names() =~= level_names());
        l
    }

    /// The file name of the current level; `None` when the current level's
    /// number is not that of a level.
    pub fn current(&self) -> (name: Option<&String>)
        ensures
            match name {
                Some(n) => self.current_level < self.levels@.len() && n@
                    == self.names()[self.current_level as int],
                None => self.current_level >= self.levels@.len(),
            },
    {
        if self.current_level < self.levels.len() {
            Some(&self.levels[self.current_level])
        } else {
            None
        }
    }
}

/// The tiles of the map's ground: for each map row, from the first, sixteen
/// tiles from column 0 on. The first map row is the top row of the screen,
/// row 15.
pub fn tile_grid(rows: &[MapRow; 16]) -> (tiles: Vec<TilePlacement>)
    ensures
        tiles@.len() == 256,
        forall|r: int, c: int|
            0 <= r < 16 && 0 <= c < 16 ==> #[trigger] tiles@[r * 16 + c] == (TilePlacement {
                column: c as i32,
                row: (15 - r) as i32,
                sprite: rows@[r].sprite,
            }),
{
    let mut tiles: Vec<TilePlacement> = Vec::new();
    let mut r: usize = 0;
    while r < 16
        invariant
            r <= 16,
            tiles@.len() == r * 16,
            forall|a: int, c: int|
                0 <= a < r && 0 <= c < 16 ==> #[trigger] tiles@[a * 16 + c] == (TilePlacement {
                    column: c as i32,
                    row: (15 - a) as i32,
                    sprite: rows@[a].sprite,
                }),
        decreases 16 - r,
    {
        let mut c: usize = 0;
        while c < 16
            invariant
                r < 16,
                c <= 16,
                tiles@.len() == r * 16 + c,
                forall|a: int, b: int|
                    0 <= a < r && 0 <= b < 16 ==> #[trigger] tiles@[a * 16 + b] == (TilePlacement {
                        column: b as i32,
                        row: (15 - a) as i32,
                        sprite: rows@[a].sprite,
                    }),
                forall|b: int|
                    0 <= b < c ==> #[trigger] tiles@[r * 16 + b] == (TilePlacement {
                        column: b as i32,
                        row: (15 - r) as i32,
                        sprite: rows@[r as int].sprite,
                    }),
            decreases 16 - c,
        {
            tiles.push(
                TilePlacement { column: c as i32, row: 15 - r as i32, sprite: rows[r].sprite },
            );
            c += 1;
        }
        r += 1;
    }
    tiles
}

/// The wall tiles of one wall row among its first `upto` columns, by
/// ascending column.
pub open spec fn row_walls(wall: MapWallRow, upto: int) -> Seq<TilePlacement>
    decreases upto,
{
    if upto <= 0 {
        Seq::empty()
    } else {
        let rest = row_walls(wall, upto - 1);
        if wall.columns@[upto - 1] {
            rest.push(
                TilePlacement {
                    column: (upto - 1) as i32,
                    row: (15 - wall.row) as i32,
                    sprite: WALL_SPRITE,
                },
            )
        } else {
            rest
        }
    }
}

/// The wall tiles of the wall rows, row by row.
pub open spec fn all_walls(walls: Seq<MapWallRow>) -> Seq<TilePlacement>
    decreases walls.len(),
{
    if walls.len() == 0 {
        Seq::empty()
    } else {
        all_walls(walls.drop_last()) + row_walls(walls.last(), 16)
    }
}

/// The tiles on which walls stand: for each wall row in turn, one tile for
/// each column that has a wall, by ascending column. A wall row's number
/// counts from the top of the screen, the tile's row from the bottom.
pub fn wall_tiles(walls: &Vec<MapWallRow>) -> (tiles: Vec<TilePlacement>)
    requires
        forall|i: int| 0 <= i < walls@.len() ==> 15 - (#[trigger] walls@[i]).row <= i32::MAX,
    ensures
        tiles@ == all_walls(walls@),
{
    let mut tiles: Vec<TilePlacement> = Vec::new();
    let mut i: usize = 0;
    assert(walls@.take(0) =~= Seq::<MapWallRow>::empty());
    while i < walls.len()
        invariant
            i <= walls@.len(),
            forall|k: int| 0 <= k < walls@.len() ==> 15 - (#[trigger] walls@[k]).row <= i32::MAX,
            tiles@ == all_walls(walls@.take(i as int)),
        decreases walls@.len() - i,
    {
        let wall = walls[i];
        let ghost before = tiles@;
        let mut c: usize = 0;
        while c < 16
            invariant
                c <= 16,
                15 - wall.row <= i32::MAX,
                tiles@ == before + row_walls(wall, c as int),
            decreases 16 - c,
        {
            if wall.columns[c] {
                tiles.push(
                    TilePlacement { column: c as i32, row: 15 - wall.row, sprite: WALL_SPRITE },
                );
            }
            assert(tiles@ =~= before + row_walls(wall, c + 1));
            c += 1;
        }
        proof {
            assert(walls@.take(i + 1).drop_last() =~= walls@.take(i as int));
            assert(walls@.take(i + 1).last() == wall);
        }
        i += 1;
    }
    assert(walls@.take(i as int) =~= walls@);
    tiles
}

/// The entities that are drawn: those alive that have a sprite or an atlas sprite.
pub open spec fn drawn<C>(m: WorldModel<C>) -> Set<EntityId> {
    having(m, KIND_SPRITE).union(having(m, KIND_ATLAS_SPRITE))
}

/// The entities alive that have a component of kind `kind`.
pub open spec fn having<C>(m: WorldModel<C>, kind: usize) -> Set<EntityId> {
    Set::new(|id: EntityId| m.alive.contains(id) && m.has(id, kind))
}

/// Asks for every entity that has a component of kind `kind` to be despawned
/// at the end of the tick, and returns these entities.
pub fn defer_kind<C>(world: &mut World<C>, kind: usize) -> (ids: Vec<EntityId>)
    requires
        old(world).wf(),
    ensures
        final(world).wf(),
        ids@.to_set() == having(old(world)@, kind),
        final(world)@ == old(world)@.deferred_all(ids@),
{
    let mut required: Vec<usize> = Vec::new();
    required.push(kind);
    let excluded: Vec<usize> = Vec::new();
    assert(required@.to_set().disjoint(excluded@.to_set()));
    match Query::new(required, excluded) {
        Some(q) => {
            assert forall|k: usize| q.required().contains(k) <==> k == kind by {
                if k == kind {
                    assert(required@.contains(required@[0]));
                }
            }
            assert(q.excluded() =~= Set::<usize>::empty());
            let ids = world.defer_matching(&q);
            assert(ids@.to_set() =~= having(old(world)@, kind));
            ids
        },
        None => {
            let ids: Vec<EntityId> = Vec::new();
            assert(world@ =~= old(world)@.deferred_all(ids@));
            ids
        },
    }
}

/// Ends a level: asks for every drawn entity to be despawned at the end of
/// the tick, then moves on to the next level and asks for `Loading`, or,
/// after the last level, asks for `Finished`. There must be at least one
/// level.
pub fn unload_level<C>(world: &mut World<C>, levels: &mut Levels, state: &mut StateMachine)
    requires
        old(world).wf(),
        old(levels).levels@.len() > 0,
    ensures
        final(world).wf(),
        final(world)@.issued == old(world)@.issued,
        final(world)@.alive == old(world)@.alive,
        final(world)@.components == old(world)@.components,
        final(world)@.doomed.to_set() == old(world)@.doomed.to_set().union(drawn(old(world)@)),
        final(levels).levels == old(levels).levels,
        old(levels).current_level < old(levels).levels@.len() - 1 ==> {
            &&& final(levels).current_level == old(levels).current_level + 1
            &&& final(state)@ == old(state)@.requested(AppState::Loading)
        },
        old(levels).current_level >= old(levels).levels@.len() - 1 ==> {
            &&& final(levels).current_level == old(levels).current_level
            &&& final(state)@ == old(state)@.requested(AppState::Finished)
        },
{
    let sprites = defer_kind(world, KIND_SPRITE);
    let ghost between = world@;
    let atlas_sprites = defer_kind(world, KIND_ATLAS_SPRITE);
    proof {
        assert(having(between, KIND_ATLAS_SPRITE) =~= having(old(world)@, KIND_ATLAS_SPRITE));
        lemma_to_set_concat(old(world)@.doomed, sprites@);
        lemma_to_set_concat(old(world)@.doomed + sprites@, atlas_sprites@);
        assert(world@.doomed.to_set() =~= old(world)@.doomed.to_set().union(drawn(old(world)@)));
    }
    if levels.current_level < levels.levels.len() - 1 {
        levels.current_level += 1;
        state.request_transition(AppState::Loading);
    } else {
        state.request_transition(AppState::Finished);
    }
}

/// The members of two sequences joined are the members of either.
pub proof fn lemma_to_set_concat(a: Seq<EntityId>, b: Seq<EntityId>)
    ensures
        (a + b).to_set() == a.to_set().union(b.to_set()),
{
    assert forall|x: EntityId| (a + b).to_set().contains(x) <==> a.to_set().union(
        b.to_set(),
    ).contains(x) by {
        if (a + b).contains(x) {
            let i = choose|i: int| 0 <= i < (a + b).len() && (a + b)[i] == x;
            if i < a.len() {
                assert(a[i] == x);
            } else {
                assert(b[i - a.len()] == x);
            }
        }
        if a.contains(x) {
            let i = choose|i: int| 0 <= i < a.len() && a[i] == x;
            assert((a + b)[i] == x);
        }
        if b.contains(x) {
            let i = choose|i: int| 0 <= i < b.len() && b[i] == x;
            assert((a + b)[a.len() + i] == x);
        }
    }
    assert((a + b).to_set() =~= a.to_set().union(b.to_set()));
}

/// Loads the map of a level and clears it away when the level is done.
pub struct MapPlugin;

impl MapPlugin {
    /// The systems this plugin registers, in order, each with the state
    /// it runs in, its labels and the labels it runs before and after. None
    /// declares what it reads or writes: the game leaves that to the caller,
    /// who runs the systems of a pass one after the other, so the scheduler
    /// finds no conflict among them.
    pub open spec fn systems() -> Seq<SystemModel> {
        seq![
            SystemModel::named("load_current_map"@)
                .gate(Gate::OnEnter(AppState::Loading))
                .label(LABEL_LOAD_CURRENT_MAP),
            SystemModel::named("load_map_atlas"@)
                .gate(Gate::OnEnter(AppState::Loading))
                .after(LABEL_LOAD_CURRENT_MAP),
            SystemModel::named("unload_level"@).gate(Gate::OnEnter(AppState::LevelDone)),
        ]
    }

    /// Registers the plugin's systems with the scheduler, after those
    /// already registered.
    pub fn build(&self, app: &mut Scheduler)
        ensures
            final(app).systems() == old(app).systems() + Self::systems(),
    {
        app.register(SystemSpec::new("load_current_map")
            .gate(Gate::OnEnter(AppState::Loading))
            .label(LABEL_LOAD_CURRENT_MAP));
        app.register(SystemSpec::new("load_map_atlas")
            .gate(Gate::OnEnter(AppState::Loading))
            .after(LABEL_LOAD_CURRENT_MAP));
        app.register(SystemSpec::new("unload_level").gate(Gate::OnEnter(AppState::LevelDone)));
        assert(app.systems() =~= old(app).systems() + Self::systems());
    }
}

} // verus!
