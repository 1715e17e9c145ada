use vstd::arithmetic::div_mod::{
    lemma_add_mod_noop, lemma_fundamental_div_mod, lemma_fundamental_div_mod_converse_mod,
    lemma_mod_division_less_than_divisor, lemma_mod_multiples_basic, lemma_small_mod,
    lemma_sub_mod_noop,
};
use vstd::prelude::*;

use crate::math::{lemma_mul_bound, lemma_square_nonneg, Rect2Fx, Rect2X, Vector2Fx, Vector2X};
use crate::randomness::random_u64_in;

verus! {

/// Edge length of one grid tile, in fixed-point coordinate steps
/// (ten steps per game unit, so a tile is five game units wide).
pub const TILE_SIZE: i64 = 50;

/// Largest magnitude a stored coordinate may take; keeps every distance
/// computation inside `i64`.
pub const COORD_LIMIT: i64 = 1_000_000_000;

/// Movement speed of player entities, in coordinate steps per tick.
pub const PLAYER_MOVEMENT_SPEED: i64 = 9;

/// Movement speed of wandering NPCs, in coordinate steps per tick.
pub const NPC_MOVEMENT_SPEED: i64 = 3;

/// Bounds (inclusive-exclusive) of the random wander cooldown of an NPC.
pub const NPC_DIRECTION_TICKS_MIN: u32 = 5;

pub const NPC_DIRECTION_TICKS_MAX: u32 = 40;

/// How far an NPC may roam from its spawnpoint, in coordinate steps.
pub const NPC_ROAMING_RANGE: i64 = 125;

/// Two entities interact when their squared distance is below this:
/// one and a half tiles, squared.
pub const ENTITY_MAX_RANGE: i64 = 75;

pub const ENTITY_MAX_RANGE_SQUARED: i64 = ENTITY_MAX_RANGE * ENTITY_MAX_RANGE;

/// Default on-screen footprint of an entity: slightly less than a tile.
pub fn entity_size() -> (v: Vector2Fx)
    ensures
        v == spec_entity_size(),
{
    Vector2X { x: 48, y: 48 }
}

pub open spec fn spec_entity_size() -> Vector2Fx {
    Vector2X { x: 48int as i64, y: 48int as i64 }
}

pub type EntityId = u32;

/// Multiply a tile count by the tile size.
pub fn get_tiled_value(v: i64) -> (r: i64)
    requires
        -20_000_000 <= v <= 20_000_000,
    ensures
        r == v * TILE_SIZE,
        -COORD_LIMIT <= r <= COORD_LIMIT,
{
    proof {
        lemma_mul_bound(v as int, TILE_SIZE as int, 20_000_000int);
        assert(v * TILE_SIZE == TILE_SIZE * v) by (nonlinear_arith);
        assert(-20_000_000 <= v <= 20_000_000 ==> -COORD_LIMIT <= 50 * v <= COORD_LIMIT)
            by (nonlinear_arith);
    }
    v * TILE_SIZE
}

/// Turn tile indices into the fixed-point position of that tile's corner.
pub fn get_tiled_vec(x: i64, y: i64) -> (r: Vector2Fx)
    requires
        -20_000_000 <= x <= 20_000_000,
        -20_000_000 <= y <= 20_000_000,
    ensures
        r.x == x * TILE_SIZE,
        r.y == y * TILE_SIZE,
        vec_ok(r),
{
    Vector2X { x: get_tiled_value(x), y: get_tiled_value(y) }
}

#[derive(Debug, Clone, Copy, PartialEq, Eq, Structural)]
pub enum WorldError {
    EntityNotExist,
    EntityCannotMoveThere,
    EntityCannotBecameSeeker,
    EntityNotPlayer,
    EntityNotHider,
    EntityNotSeeker,
}

#[derive(Debug, Clone, Copy, PartialEq, Eq, Structural)]
pub struct HiderStats {
    pub covered: bool,
}

#[derive(Debug, Clone, Copy, PartialEq, Eq, Structural)]
pub struct SeekerStats {
    pub remaining_ticks: u32,
    pub remaining_failures: usize,
}

#[derive(Debug, Clone, Copy, PartialEq, Eq, Structural)]
pub enum PlayerRole {
    Hider { stats: HiderStats },
    Seeker { stats: SeekerStats },
}

impl Default for PlayerRole {
    /// A fresh player starts as a covered hider.
    fn default() -> (r: Self)
        ensures
            r == (PlayerRole::Hider { stats: HiderStats { covered: true } }),
    {
        Self::Hider { stats: HiderStats { covered: true } }
    }
}

#[derive(Debug, Clone, Copy)]
pub struct PlayerController {
    pub role: PlayerRole,
}

impl Default for PlayerController {
    fn default() -> (r: Self)
        ensures
            r == (PlayerController { role: PlayerRole::Hider { stats: HiderStats { covered: true } } }),
    {
        Self { role: PlayerRole::Hider { stats: HiderStats { covered: true } } }
    }
}

#[derive(Debug, Clone, Copy)]
pub struct NpcController {
    pub spawnpoint: Vector2Fx,
    pub roaming_range: Option<i64>,
    pub change_destination_counter: u32,
}

#[derive(Debug, Clone, Copy)]
pub enum EntityController {
    Npc(NpcController),
    Player(PlayerController),
}

#[derive(Debug, Clone, Copy, PartialEq, Eq, Structural)]
pub enum EntityState {
    Idle,
    Moving { from_position: Vector2Fx, destination: Vector2Fx },
}

#[derive(Debug, Clone, Copy)]
pub struct EntityStats {
    pub movement_speed: i64,
}

#[derive(Debug)]
pub struct Entity {
    pub id: EntityId,
    pub name: String,
    pub position: Vector2Fx,
    pub color: [u8; 3],
    pub size: Vector2Fx,
    pub state: EntityState,
    pub stats: EntityStats,
    pub controller: EntityController,
}

#[derive(Debug)]
pub struct World {
    pub new_entity_id: EntityId,
    pub entities: Vec<Entity>,
}

pub struct SeekerHidersSummary {
    pub seeker: Option<(EntityId, SeekerStats)>,
    pub hiders: Vec<(EntityId, HiderStats)>,
}

// ---------------------------------------------------------------------------
// Coordinate predicates
// ---------------------------------------------------------------------------
pub open spec fn coord_ok(c: i64) -> bool {
    -COORD_LIMIT <= c <= COORD_LIMIT
}

pub open spec fn vec_ok(v: Vector2Fx) -> bool {
    coord_ok(v.x) && coord_ok(v.y)
}

/// Positions of entities in flight may overshoot their endpoints by less
/// than one movement step.
pub open spec fn coord_mid_ok(c: i64) -> bool {
    -COORD_LIMIT - 48 <= c <= COORD_LIMIT + 48
}

pub open spec fn vec_mid_ok(v: Vector2Fx) -> bool {
    coord_mid_ok(v.x) && coord_mid_ok(v.y)
}

/// Positions handed to entity factories must leave room for grid alignment
/// and for the roaming band of NPCs.
pub open spec fn create_pos_ok(v: Vector2Fx) -> bool {
    &&& -(COORD_LIMIT - 250) <= v.x <= COORD_LIMIT - 250
    &&& -(COORD_LIMIT - 250) <= v.y <= COORD_LIMIT - 250
}

pub open spec fn aligned_coord(c: int) -> bool {
    c % (TILE_SIZE as int) == 0
}

pub open spec fn aligned_vec(v: Vector2Fx) -> bool {
    aligned_coord(v.x as int) && aligned_coord(v.y as int)
}

/// Largest grid-aligned value at or below `c`.
pub open spec fn align_coord(c: int) -> int {
    c - (c % (TILE_SIZE as int))
}

pub open spec fn align_vec(v: Vector2Fx) -> Vector2Fx {
    Vector2X { x: align_coord(v.x as int) as i64, y: align_coord(v.y as int) as i64 }
}

/// Aligning lands on the grid, at most one tile below the input.
pub proof fn lemma_align_props(c: int)
    ensures
        aligned_coord(align_coord(c)),
        align_coord(c) <= c < align_coord(c) + TILE_SIZE,
{
    let t = TILE_SIZE as int;
    lemma_fundamental_div_mod(c, t);
    lemma_mod_division_less_than_divisor(c, t);
    assert(align_coord(c) == t * (c / t));
    lemma_mod_multiples_basic(c / t, t);
}

/// Grid alignment is idempotent: an aligned value aligns to itself.
pub proof fn lemma_align_idempotent(c: int)
    ensures
        align_coord(align_coord(c)) == align_coord(c),
{
    lemma_align_props(c);
    assert(align_coord(c) % (TILE_SIZE as int) == 0);
}

/// Grid alignment of positions is idempotent on both axes.
pub proof fn lemma_align_vec_idempotent(v: Vector2Fx)
    requires
        vec_ok(v),
    ensures
        align_vec(align_vec(v)) == align_vec(v),
{
    lemma_align_props(v.x as int);
    lemma_align_props(v.y as int);
    lemma_align_idempotent(v.x as int);
    lemma_align_idempotent(v.y as int);
}

// ---------------------------------------------------------------------------
// Entity predicates
// ---------------------------------------------------------------------------
pub open spec fn is_seeker_entity(e: Entity) -> bool {
    e.spec_role() matches Some(PlayerRole::Seeker { .. })
}

/// A coordinate in flight stays within one step of the segment between its
/// endpoints.
pub open spec fn coord_between(from: i64, dest: i64, pos: i64) -> bool {
    if from <= dest {
        from - 48 <= pos <= dest + 48
    } else {
        dest - 48 <= pos <= from + 48
    }
}

impl Entity {
    pub open spec fn spec_role(self) -> Option<PlayerRole> {
        match self.controller {
            EntityController::Npc(_) => None,
            EntityController::Player(p) => Some(p.role),
        }
    }

    pub open spec fn spec_is_moving(self) -> bool {
        self.state matches EntityState::Moving { .. }
    }

    /// Well-formedness of one entity: a sane movement speed, grid-aligned
    /// resting positions and movement endpoints within the coordinate
    /// limits, and NPC spawnpoints that leave room for roaming.
    pub open spec fn wf(self) -> bool {
        &&& 0 < self.stats.movement_speed <= 49
        &&& match self.state {
            EntityState::Idle => aligned_vec(self.position) && vec_ok(self.position),
            EntityState::Moving { from_position, destination } => {
                &&& vec_ok(from_position)
                &&& aligned_vec(destination)
                &&& vec_ok(destination)
                &&& coord_between(from_position.x, destination.x, self.position.x)
                &&& coord_between(from_position.y, destination.y, self.position.y)
            },
        }
        &&& match self.controller {
            EntityController::Npc(n) => {
                &&& aligned_vec(n.spawnpoint)
                &&& -(COORD_LIMIT - 200) <= n.spawnpoint.x <= COORD_LIMIT - 200
                &&& -(COORD_LIMIT - 200) <= n.spawnpoint.y <= COORD_LIMIT - 200
                &&& match n.roaming_range {
                    Some(r) => 0 <= r <= 150,
                    None => true,
                }
            },
            EntityController::Player(_) => true,
        }
    }

    pub fn is_player(&self) -> (r: bool)
        ensures
            r == (self.controller matches EntityController::Player(_)),
    {
        matches!(self.controller, EntityController::Player(_))
    }

    pub fn is_moving(&self) -> (r: bool)
        ensures
            r == self.spec_is_moving(),
    {
        matches!(self.state, EntityState::Moving { from_position: _, destination: _ })
    }

    pub fn get_player_role(&self) -> (r: Option<&PlayerRole>)
        ensures
            match r {
                Some(role) => self.spec_role() == Some(*role),
                None => self.spec_role() is None,
            },
    {
        match &self.controller {
            EntityController::Npc(_) => None,
            EntityController::Player(player_controller) => Some(&player_controller.role),
        }
    }

    /// Set the covered flag of a hider; any other entity is rejected
    /// unchanged.
    pub fn set_hider_covered(&mut self, covered: bool) -> (r: Result<(), WorldError>)
        ensures
            match old(self).spec_role() {
                None => r == Err::<(), WorldError>(WorldError::EntityNotPlayer) && *final(self)
                    == *old(self),
                Some(PlayerRole::Seeker { .. }) => r == Err::<(), WorldError>(
                    WorldError::EntityNotHider,
                ) && *final(self) == *old(self),
                Some(PlayerRole::Hider { .. }) => r == Ok::<(), WorldError>(()) && *final(self)
                    == (Entity {
                    controller: EntityController::Player(
                        PlayerController {
                            role: PlayerRole::Hider { stats: HiderStats { covered } },
                        },
                    ),
                    ..*old(self)
                }),
            },
    {
        match &mut self.controller {
            EntityController::Npc(_) => Err(WorldError::EntityNotPlayer),
            EntityController::Player(player_controller) => {
                match &mut player_controller.role {
                    PlayerRole::Hider { stats } => {
                        stats.covered = covered;
                        Ok(())
                    },
                    PlayerRole::Seeker { stats: _ } => Err(WorldError::EntityNotHider),
                }
            },
        }
    }

    /// Take one failure from a seeker, saturating at zero; any other entity
    /// is rejected unchanged.
    pub fn punish_seeker(&mut self) -> (r: Result<(), WorldError>)
        ensures
            match old(self).spec_role() {
                None => r == Err::<(), WorldError>(WorldError::EntityNotPlayer) && *final(self)
                    == *old(self),
                Some(PlayerRole::Hider { .. }) => r == Err::<(), WorldError>(
                    WorldError::EntityNotSeeker,
                ) && *final(self) == *old(self),
                Some(PlayerRole::Seeker { stats }) => r == Ok::<(), WorldError>(()) && *final(self)
                    == (Entity {
                    controller: EntityController::Player(
                        PlayerController {
                            role: PlayerRole::Seeker {
                                stats: SeekerStats {
                                    remaining_failures: if stats.remaining_failures > 0 {
                                        (stats.remaining_failures - 1) as usize
                                    } else {
                                        0
                                    },
                                    ..stats
                                },
                            },
                        },
                    ),
                    ..*old(self)
                }),
            },
    {
        match &mut self.controller {
            EntityController::Npc(_) => Err(WorldError::EntityNotPlayer),
            EntityController::Player(player_controller) => {
                match &mut player_controller.role {
                    PlayerRole::Hider { stats: _ } => Err(WorldError::EntityNotSeeker),
                    PlayerRole::Seeker { stats } => {
                        stats.remaining_failures = if stats.remaining_failures > 0 {
                            stats.remaining_failures - 1
                        } else {
                            0
                        };
                        Ok(())
                    },
                }
            },
        }
    }
}

// ---------------------------------------------------------------------------
// World
// ---------------------------------------------------------------------------
impl World {
    /// Entity ids grow strictly along the entity list, so they are unique.
    pub open spec fn ids_strictly_increasing(self) -> bool {
        forall|i: int, j: int|
            0 <= i < j < self.entities@.len() ==> #[trigger] self.entities@[i].id
                < #[trigger] self.entities@[j].id
    }

    /// Every stored id was drawn from the counter, so it is below it.
    pub open spec fn ids_below_counter(self) -> bool {
        forall|i: int|
            0 <= i < self.entities@.len() ==> #[trigger] self.entities@[i].id < self.new_entity_id
    }

    /// At most one entity carries the seeker role.
    pub open spec fn at_most_one_seeker(self) -> bool {
        forall|i: int, j: int|
            0 <= i < self.entities@.len() && 0 <= j < self.entities@.len() && is_seeker_entity(
                #[trigger] self.entities@[i],
            ) && is_seeker_entity(#[trigger] self.entities@[j]) ==> i == j
    }

    pub open spec fn wf(self) -> bool {
        &&& self.ids_strictly_increasing()
        &&& self.ids_below_counter()
        &&& forall|i: int| 0 <= i < self.entities@.len() ==> (#[trigger] self.entities@[i]).wf()
        &&& self.at_most_one_seeker()
    }

    pub open spec fn spec_has_entity(self, entity_id: EntityId) -> bool {
        exists|i: int| 0 <= i < self.entities@.len() && #[trigger] self.entities@[i].id == entity_id
    }

    /// Index of the entity with the given id (meaningful only when present;
    /// ids are unique under `wf`).
    pub open spec fn spec_index_of(self, entity_id: EntityId) -> int {
        choose|i: int| 0 <= i < self.entities@.len() && #[trigger] self.entities@[i].id == entity_id
    }

    /// Snap a position onto the tile grid, flooring on both axes.
    pub fn get_grid_aligned_position(pos: &Vector2Fx) -> (r: Vector2Fx)
        requires
            vec_ok(*pos),
        ensures
            r == align_vec(*pos),
            aligned_vec(r),
            pos.x - TILE_SIZE < r.x <= pos.x,
            pos.y - TILE_SIZE < r.y <= pos.y,
    {
        proof {
            lemma_align_props(pos.x as int);
            lemma_align_props(pos.y as int);
        }
        Vector2X { x: align_value(pos.x), y: align_value(pos.y) }
    }

    pub fn new() -> (w: Self)
        ensures
            w.new_entity_id == 0,
            w.entities@.len() == 0,
            w.wf(),
    {
        Self { new_entity_id: 0, entities: Vec::new() }
    }
}

// ---------------------------------------------------------------------------
// Entity factories and lookup
// ---------------------------------------------------------------------------
/// Well-formedness of a controller handed to the entity factory.
pub open spec fn controller_wf(c: EntityController) -> bool {
    match c {
        EntityController::Npc(n) => {
            &&& aligned_vec(n.spawnpoint)
            &&& -(COORD_LIMIT - 200) <= n.spawnpoint.x <= COORD_LIMIT - 200
            &&& -(COORD_LIMIT - 200) <= n.spawnpoint.y <= COORD_LIMIT - 200
            &&& match n.roaming_range {
                Some(r) => 0 <= r <= 150,
                None => true,
            }
        },
        EntityController::Player(_) => true,
    }
}

pub open spec fn is_seeker_controller(c: EntityController) -> bool {
    match c {
        EntityController::Player(p) => p.role matches PlayerRole::Seeker { .. },
        EntityController::Npc(_) => false,
    }
}

/// Positions accepted by the generic entity factory; slightly wider than
/// [`create_pos_ok`] because the public factories align first.
pub open spec fn factory_pos_ok(v: Vector2Fx) -> bool {
    &&& -(COORD_LIMIT - 200) <= v.x <= COORD_LIMIT - 200
    &&& -(COORD_LIMIT - 200) <= v.y <= COORD_LIMIT - 200
}

impl World {
    fn find_entity_index(&self, entity_id: EntityId) -> (r: Option<usize>)
        ensures
            match r {
                Some(i) => i < self.entities@.len() && self.entities@[i as int].id == entity_id,
                None => !self.spec_has_entity(entity_id),
            },
    {
        let n = self.entities.len();
        let mut i: usize = 0;
        while i < n
            invariant
                n == self.entities@.len(),
                i <= n,
                forall|j: int| 0 <= j < i ==> #[trigger] self.entities@[j].id != entity_id,
            decreases n - i,
        {
            if self.entities[i].id == entity_id {
                return Some(i);
            }
            i += 1;
        }
        None
    }

    /// Under well-formedness, the id of an entity pins down its index.
    pub proof fn lemma_id_index_unique(self, i: int, j: int)
        requires
            self.wf(),
            0 <= i < self.entities@.len(),
            0 <= j < self.entities@.len(),
            self.entities@[i].id == self.entities@[j].id,
        ensures
            i == j,
    {
        if i < j {
            assert(self.entities@[i].id < self.entities@[j].id);
        }
        if j < i {
            assert(self.entities@[j].id < self.entities@[i].id);
        }
    }

    pub fn get_entity_by_id(&self, entity_id: EntityId) -> (r: Option<&Entity>)
        ensures
            match r {
                Some(e) => self.spec_has_entity(entity_id) && exists|i: int|
                    0 <= i < self.entities@.len() && #[trigger] self.entities@[i] == *e
                        && self.entities@[i].id == entity_id,
                None => !self.spec_has_entity(entity_id),
            },
    {
        match self.find_entity_index(entity_id) {
            Some(i) => Some(&self.entities[i]),
            None => None,
        }
    }

    /// Append a fresh entity built from the given parts: it gets the next
    /// id, the grid-aligned position, and starts idle.
    pub fn create_entity(
        &mut self,
        name: &str,
        intial_position: Vector2Fx,
        size: Vector2Fx,
        color: [u8; 3],
        stats: EntityStats,
        controller: EntityController,
    ) -> (r: EntityId)
        requires
            old(self).wf(),
            old(self).new_entity_id < u32::MAX,
            factory_pos_ok(intial_position),
            0 < stats.movement_speed <= 49,
            controller_wf(controller),
            is_seeker_controller(controller) ==> forall|i: int|
                0 <= i < old(self).entities@.len() ==> !is_seeker_entity(
                    #[trigger] old(self).entities@[i],
                ),
        ensures
            r == old(self).new_entity_id,
            final(self).new_entity_id == old(self).new_entity_id + 1,
            final(self).entities@.len() == old(self).entities@.len() + 1,
            forall|i: int|
                0 <= i < old(self).entities@.len() ==> final(self).entities@[i] == old(
                    self,
                ).entities@[i],
            final(self).entities@.last().id == r,
            final(self).entities@.last().name@ == name@,
            final(self).entities@.last().position == align_vec(intial_position),
            final(self).entities@.last().size == size,
            final(self).entities@.last().color == color,
            final(self).entities@.last().state == EntityState::Idle,
            final(self).entities@.last().stats == stats,
            final(self).entities@.last().controller == controller,
            forall|i: int|
                0 <= i < old(self).entities@.len() ==> #[trigger] old(self).entities@[i].id < r,
            final(self).wf(),
    {
        let intial_position = Self::get_grid_aligned_position(&intial_position);
        let new_id = self.new_entity_id;
        self.new_entity_id = self.new_entity_id + 1;

        let entity = Entity {
            id: new_id,
            name: String::from_str(name),
            position: intial_position,
            size,
            color,
            state: EntityState::Idle,
            stats,
            controller,
        };

        self.entities.push(entity);
        proof {
            assert(final(self).entities@.last().wf());
            assert(final(self).entities@ == old(self).entities@.push(
                final(self).entities@.last(),
            ));
        }
        new_id
    }

    /// Create a grey-shaded player entity: a covered hider moving at player
    /// speed. Its colour channel is drawn at random.
    pub fn create_entity_player(&mut self, name: &str, intial_position: Vector2Fx, size: Vector2Fx) -> (r:
        EntityId)
        requires
            old(self).wf(),
            old(self).new_entity_id < u32::MAX,
            create_pos_ok(intial_position),
        ensures
            r == old(self).new_entity_id,
            final(self).new_entity_id == old(self).new_entity_id + 1,
            final(self).entities@.len() == old(self).entities@.len() + 1,
            forall|i: int|
                0 <= i < old(self).entities@.len() ==> final(self).entities@[i] == old(
                    self,
                ).entities@[i],
            final(self).entities@.last().id == r,
            final(self).entities@.last().name@ == name@,
            final(self).entities@.last().position == align_vec(intial_position),
            final(self).entities@.last().size == size,
            final(self).entities@.last().state == EntityState::Idle,
            final(self).entities@.last().stats.movement_speed == PLAYER_MOVEMENT_SPEED,
            final(self).entities@.last().spec_role() == Some(
                PlayerRole::Hider { stats: HiderStats { covered: true } },
            ),
            35 <= final(self).entities@.last().color@[0] < 150,
            final(self).entities@.last().color@[1] == final(self).entities@.last().color@[0],
            final(self).entities@.last().color@[2] == final(self).entities@.last().color@[0],
            forall|i: int|
                0 <= i < old(self).entities@.len() ==> #[trigger] old(self).entities@[i].id < r,
            final(self).wf(),
    {
        let intial_position = Self::get_grid_aligned_position(&intial_position);
        proof {
            lemma_align_vec_idempotent(intial_position);
        }
        let channel = random_u64_in(35, 150) as u8;
        let color = [channel, channel, channel];
        self.create_entity(
            name,
            intial_position,
            size,
            color,
            EntityStats { movement_speed: PLAYER_MOVEMENT_SPEED },
            EntityController::Player(PlayerController::default()),
        )
    }

    /// Create a grey-shaded NPC entity: it wanders around its spawnpoint
    /// after a random initial cooldown.
    pub fn create_entity_npc(&mut self, name: &str, intial_position: Vector2Fx, size: Vector2Fx) -> (r:
        EntityId)
        requires
            old(self).wf(),
            old(self).new_entity_id < u32::MAX,
            create_pos_ok(intial_position),
        ensures
            r == old(self).new_entity_id,
            final(self).new_entity_id == old(self).new_entity_id + 1,
            final(self).entities@.len() == old(self).entities@.len() + 1,
            forall|i: int|
                0 <= i < old(self).entities@.len() ==> final(self).entities@[i] == old(
                    self,
                ).entities@[i],
            final(self).entities@.last().id == r,
            final(self).entities@.last().name@ == name@,
            final(self).entities@.last().position == align_vec(intial_position),
            final(self).entities@.last().size == size,
            final(self).entities@.last().state == EntityState::Idle,
            final(self).entities@.last().stats.movement_speed == NPC_MOVEMENT_SPEED,
            final(self).entities@.last().controller matches EntityController::Npc(n)
                && n.spawnpoint == align_vec(intial_position) && n.roaming_range == Some(
                NPC_ROAMING_RANGE,
            ) && NPC_DIRECTION_TICKS_MIN <= n.change_destination_counter < NPC_DIRECTION_TICKS_MAX,
            35 <= final(self).entities@.last().color@[0] < 150,
            final(self).entities@.last().color@[1] == final(self).entities@.last().color@[0],
            final(self).entities@.last().color@[2] == final(self).entities@.last().color@[0],
            forall|i: int|
                0 <= i < old(self).entities@.len() ==> #[trigger] old(self).entities@[i].id < r,
            final(self).wf(),
    {
        let intial_position = Self::get_grid_aligned_position(&intial_position);
        proof {
            lemma_align_vec_idempotent(intial_position);
        }
        let channel = random_u64_in(35, 150) as u8;
        let color = [channel, channel, channel];
        let cooldown = random_u64_in(
            NPC_DIRECTION_TICKS_MIN as u64,
            NPC_DIRECTION_TICKS_MAX as u64,
        ) as u32;
        self.create_entity(
            name,
            intial_position,
            size,
            color,
            EntityStats { movement_speed: NPC_MOVEMENT_SPEED },
            EntityController::Npc(
                NpcController {
                    spawnpoint: intial_position,
                    roaming_range: Some(NPC_ROAMING_RANGE),
                    change_destination_counter: cooldown,
                },
            ),
        )
    }

    /// Remove the entity with the given id; fails when it is absent. The id
    /// counter is untouched, so removed ids are never reassigned.
    pub fn remove_entity(&mut self, entity_id: EntityId) -> (r: Result<(), WorldError>)
        ensures
            match r {
                Ok(()) => old(self).spec_has_entity(entity_id) && exists|i: int|
                    0 <= i < old(self).entities@.len() && #[trigger] old(self).entities@[i].id
                        == entity_id && final(self).entities@ == old(self).entities@.remove(i),
                Err(e) => e == WorldError::EntityNotExist && !old(self).spec_has_entity(entity_id)
                    && *final(self) == *old(self),
            },
            final(self).new_entity_id == old(self).new_entity_id,
            old(self).wf() ==> final(self).wf(),
    {
        match self.find_entity_index(entity_id) {
            Some(i) => {
                let _ = self.entities.remove(i);
                Ok(())
            },
            None => Err(WorldError::EntityNotExist),
        }
    }

    /// Give the player entity with this id the seeker role. NPCs cannot
    /// become seekers, and absent ids are reported.
    pub fn select_entity_as_seeker(
        &mut self,
        entity_id: EntityId,
        remaining_ticks: u32,
        remaining_failures: usize,
    ) -> (r: Result<(), WorldError>)
        requires
            old(self).wf(),
            remaining_ticks > 0,
            forall|i: int|
                0 <= i < old(self).entities@.len() && is_seeker_entity(
                    #[trigger] old(self).entities@[i],
                ) ==> old(self).entities@[i].id == entity_id,
        ensures
            final(self).new_entity_id == old(self).new_entity_id,
            match r {
                Ok(()) => exists|i: int|
                    0 <= i < old(self).entities@.len() && #[trigger] old(self).entities@[i].id
                        == entity_id && old(self).entities@[i].spec_role() is Some
                        && final(self).entities@ == old(self).entities@.update(
                        i,
                        Entity {
                            controller: EntityController::Player(
                                PlayerController {
                                    role: PlayerRole::Seeker {
                                        stats: SeekerStats { remaining_ticks, remaining_failures },
                                    },
                                },
                            ),
                            ..old(self).entities@[i]
                        },
                    ),
                Err(WorldError::EntityNotExist) => !old(self).spec_has_entity(entity_id)
                    && *final(self) == *old(self),
                Err(WorldError::EntityCannotBecameSeeker) => exists|i: int|
                    0 <= i < old(self).entities@.len() && #[trigger] old(self).entities@[i].id
                        == entity_id && old(self).entities@[i].spec_role() is None && *final(self)
                    == *old(self),
                Err(_) => false,
            },
            final(self).wf(),
    {
        let idx = match self.find_entity_index(entity_id) {
            Some(i) => i,
            None => {
                return Err(WorldError::EntityNotExist);
            },
        };
        let ghost old_entities = self.entities@;
        if matches!(self.entities[idx].controller, EntityController::Npc(_)) {
            return Err(WorldError::EntityCannotBecameSeeker);
        }
        let entity = &mut self.entities[idx];
        entity.controller = EntityController::Player(
            PlayerController {
                role: PlayerRole::Seeker {
                    stats: SeekerStats { remaining_ticks, remaining_failures },
                },
            },
        );
        proof {
            assert(self.entities@ =~= old_entities.update(
                idx as int,
                Entity {
                    controller: EntityController::Player(
                        PlayerController {
                            role: PlayerRole::Seeker {
                                stats: SeekerStats { remaining_ticks, remaining_failures },
                            },
                        },
                    ),
                    ..old_entities[idx as int]
                },
            ));
        }
        Ok(())
    }
}

// ---------------------------------------------------------------------------
// Occupancy, interaction range, role bookkeeping
// ---------------------------------------------------------------------------
/// The square tile whose corner is at `tile`.
pub open spec fn tile_rect(tile: Vector2Fx) -> Rect2Fx {
    Rect2X { pos: tile, size: Vector2X { x: TILE_SIZE, y: TILE_SIZE } }
}

/// An entity blocks a tile when it rests inside it, or when either endpoint
/// of its current move falls inside it.
pub open spec fn entity_occupies(e: Entity, tile: Vector2Fx) -> bool {
    match e.state {
        EntityState::Idle => tile_rect(tile).spec_contains(e.position),
        EntityState::Moving { from_position, destination } => tile_rect(tile).spec_contains(
            from_position,
        ) || tile_rect(tile).spec_contains(destination),
    }
}

/// The entity with a hider role, with its covered flag replaced.
pub open spec fn hider_covered_set(e: Entity, covered: bool) -> Entity {
    Entity {
        controller: EntityController::Player(
            PlayerController { role: PlayerRole::Hider { stats: HiderStats { covered } } },
        ),
        ..e
    }
}

/// The entity with a seeker role, with one failure taken away (stopping at
/// zero).
pub open spec fn seeker_punished(e: Entity) -> Entity {
    match e.spec_role() {
        Some(PlayerRole::Seeker { stats }) => Entity {
            controller: EntityController::Player(
                PlayerController {
                    role: PlayerRole::Seeker {
                        stats: SeekerStats {
                            remaining_failures: if stats.remaining_failures > 0 {
                                (stats.remaining_failures - 1) as usize
                            } else {
                                0
                            },
                            ..stats
                        },
                    },
                },
            ),
            ..e
        },
        _ => e,
    }
}

/// The entity with a seeker role, with one tick of seeking time taken away
/// (stopping at zero).
pub open spec fn seeker_time_ticked(e: Entity) -> Entity {
    match e.spec_role() {
        Some(PlayerRole::Seeker { stats }) => Entity {
            controller: EntityController::Player(
                PlayerController {
                    role: PlayerRole::Seeker {
                        stats: SeekerStats {
                            remaining_ticks: if stats.remaining_ticks > 0 {
                                (stats.remaining_ticks - 1) as u32
                            } else {
                                0
                            },
                            ..stats
                        },
                    },
                },
            ),
            ..e
        },
        _ => e,
    }
}

/// Hiders of the entity list, in list order, as (id, stats) pairs.
pub open spec fn hiders_of(s: Seq<Entity>) -> Seq<(EntityId, HiderStats)>
    decreases s.len(),
{
    if s.len() == 0 {
        Seq::empty()
    } else {
        hiders_of(s.drop_last()) + (match s.last().spec_role() {
            Some(PlayerRole::Hider { stats }) => seq![(s.last().id, stats)],
            _ => Seq::empty(),
        })
    }
}

/// The last seeker of the entity list (under well-formedness: the only
/// one), as an (id, stats) pair.
pub open spec fn seeker_of(s: Seq<Entity>) -> Option<(EntityId, SeekerStats)>
    decreases s.len(),
{
    if s.len() == 0 {
        None
    } else {
        match s.last().spec_role() {
            Some(PlayerRole::Seeker { stats }) => Some((s.last().id, stats)),
            _ => seeker_of(s.drop_last()),
        }
    }
}

/// A tile is occupied by some entity of the list.
pub open spec fn tile_occupied_by(s: Seq<Entity>, tile: Vector2Fx) -> bool {
    exists|i: int| 0 <= i < s.len() && entity_occupies(#[trigger] s[i], tile)
}

impl World {
    pub open spec fn spec_tile_occupied(self, tile: Vector2Fx) -> bool {
        tile_occupied_by(self.entities@, tile)
    }

    /// A tile is occupied when any entity rests inside it or moves from or
    /// into it.
    pub fn is_tile_occupied(&self, tile_position: &Vector2Fx) -> (r: bool)
        requires
            vec_ok(*tile_position),
        ensures
            r == self.spec_tile_occupied(*tile_position),
    {
        let checked_tile = Rect2X::new(tile_position.x, tile_position.y, TILE_SIZE, TILE_SIZE);
        let n = self.entities.len();
        let mut i: usize = 0;
        while i < n
            invariant
                n == self.entities@.len(),
                i <= n,
                checked_tile == tile_rect(*tile_position),
                vec_ok(*tile_position),
                forall|j: int|
                    0 <= j < i ==> !entity_occupies(#[trigger] self.entities@[j], *tile_position),
            decreases n - i,
        {
            let entity = &self.entities[i];
            let is_colliding = match &entity.state {
                EntityState::Idle => checked_tile.contains(&entity.position),
                EntityState::Moving { from_position, destination } => {
                    checked_tile.contains(from_position) || checked_tile.contains(destination)
                },
            };
            if is_colliding {
                return true;
            }
            i += 1;
        }
        false
    }

    /// Squared distance below one and a half tiles, squared.
    pub open spec fn spec_inrange(p1: Vector2Fx, p2: Vector2Fx) -> bool {
        (p1.x - p2.x) * (p1.x - p2.x) + (p1.y - p2.y) * (p1.y - p2.y) < ENTITY_MAX_RANGE_SQUARED
    }

    /// Two positions are in interaction range when their squared distance
    /// is below `ENTITY_MAX_RANGE_SQUARED`.
    pub fn is_entity_inrange(entity_position_1: Vector2Fx, entity_position_2: Vector2Fx) -> (r:
        bool)
        requires
            vec_mid_ok(entity_position_1),
            vec_mid_ok(entity_position_2),
        ensures
            r == Self::spec_inrange(entity_position_1, entity_position_2),
    {
        proof {
            let m = 2 * COORD_LIMIT + 96;
            assert(m * m == 4_000_000_384_000_009_216) by (nonlinear_arith)
                requires
                    m == 2_000_000_096,
            ;
            lemma_mul_bound(
                entity_position_1.x - entity_position_2.x,
                entity_position_1.x - entity_position_2.x,
                m as int,
            );
            lemma_mul_bound(
                entity_position_1.y - entity_position_2.y,
                entity_position_1.y - entity_position_2.y,
                m as int,
            );
            lemma_square_nonneg(entity_position_1.x - entity_position_2.x);
            lemma_square_nonneg(entity_position_1.y - entity_position_2.y);
        }
        let diff = entity_position_1.minus(entity_position_2);
        let d2 = diff.length_squared();
        d2 < ENTITY_MAX_RANGE_SQUARED
    }

    /// Set the covered flag of the hider with this id; absent ids and
    /// non-hiders are rejected unchanged.
    pub fn set_hider_covered(&mut self, entity_id: EntityId, covered: bool) -> (r: Result<
        (),
        WorldError,
    >)
        ensures
            final(self).new_entity_id == old(self).new_entity_id,
            match r {
                Ok(()) => exists|i: int|
                    0 <= i < old(self).entities@.len() && #[trigger] old(self).entities@[i].id
                        == entity_id && (old(self).entities@[i].spec_role() matches Some(PlayerRole::Hider { .. })) && final(self).entities@ == old(self).entities@.update(
                        i,
                        hider_covered_set(old(self).entities@[i], covered),
                    ),
                Err(WorldError::EntityNotExist) => !old(self).spec_has_entity(entity_id)
                    && *final(self) == *old(self),
                Err(WorldError::EntityNotPlayer) => exists|i: int|
                    0 <= i < old(self).entities@.len() && #[trigger] old(self).entities@[i].id
                        == entity_id && old(self).entities@[i].spec_role() is None
                        && final(self).entities@ == old(self).entities@,
                Err(WorldError::EntityNotHider) => exists|i: int|
                    0 <= i < old(self).entities@.len() && #[trigger] old(self).entities@[i].id
                        == entity_id && (old(self).entities@[i].spec_role() matches Some(PlayerRole::Seeker { .. })) && final(self).entities@ == old(self).entities@,
                Err(_) => false,
            },
            old(self).wf() ==> final(self).wf(),
    {
        let idx = match self.find_entity_index(entity_id) {
            Some(i) => i,
            None => {
                return Err(WorldError::EntityNotExist);
            },
        };
        let ghost old_entities = self.entities@;
        let entity = &mut self.entities[idx];
        let res = entity.set_hider_covered(covered);
        proof {
            let i = idx as int;
            assert(0 <= i < old(self).entities@.len() && old(self).entities@[i].id == entity_id);
            if res is Ok {
                assert(self.entities@ =~= old(self).entities@.update(
                    i,
                    hider_covered_set(old(self).entities@[i], covered),
                ));
                assert(old(self).entities@[i].spec_role() matches Some(PlayerRole::Hider { .. }));
                assert(exists|k: int|
                    0 <= k < old(self).entities@.len() && #[trigger] old(self).entities@[k].id
                        == entity_id && (old(self).entities@[k].spec_role() matches Some(
                        PlayerRole::Hider { .. },
                    )) && self.entities@ == old(self).entities@.update(
                        k,
                        hider_covered_set(old(self).entities@[k], covered),
                    ));
            } else {
                assert(self.entities@ =~= old(self).entities@);
            }
        }
        res
    }

    /// Take one failure from the seeker with this id; absent ids and
    /// non-seekers are rejected unchanged.
    pub fn punish_seeker(&mut self, entity_id: EntityId) -> (r: Result<(), WorldError>)
        ensures
            final(self).new_entity_id == old(self).new_entity_id,
            match r {
                Ok(()) => exists|i: int|
                    0 <= i < old(self).entities@.len() && #[trigger] old(self).entities@[i].id
                        == entity_id && (old(self).entities@[i].spec_role() matches Some(PlayerRole::Seeker { .. })) && final(self).entities@ == old(self).entities@.update(
                        i,
                        seeker_punished(old(self).entities@[i]),
                    ),
                Err(WorldError::EntityNotExist) => !old(self).spec_has_entity(entity_id)
                    && *final(self) == *old(self),
                Err(WorldError::EntityNotPlayer) => exists|i: int|
                    0 <= i < old(self).entities@.len() && #[trigger] old(self).entities@[i].id
                        == entity_id && old(self).entities@[i].spec_role() is None
                        && final(self).entities@ == old(self).entities@,
                Err(WorldError::EntityNotSeeker) => exists|i: int|
                    0 <= i < old(self).entities@.len() && #[trigger] old(self).entities@[i].id
                        == entity_id && (old(self).entities@[i].spec_role() matches Some(PlayerRole::Hider { .. })) && final(self).entities@ == old(self).entities@,
                Err(_) => false,
            },
            old(self).wf() ==> final(self).wf(),
    {
        let idx = match self.find_entity_index(entity_id) {
            Some(i) => i,
            None => {
                return Err(WorldError::EntityNotExist);
            },
        };
        let ghost old_entities = self.entities@;
        let entity = &mut self.entities[idx];
        let res = entity.punish_seeker();
        proof {
            let i = idx as int;
            assert(0 <= i < old(self).entities@.len() && old(self).entities@[i].id == entity_id);
            if res is Ok {
                assert(self.entities@ =~= old(self).entities@.update(
                    i,
                    seeker_punished(old(self).entities@[i]),
                ));
                assert(old(self).entities@[i].spec_role() matches Some(PlayerRole::Seeker { .. }));
                assert(exists|k: int|
                    0 <= k < old(self).entities@.len() && #[trigger] old(self).entities@[k].id
                        == entity_id && (old(self).entities@[k].spec_role() matches Some(
                        PlayerRole::Seeker { .. },
                    )) && self.entities@ == old(self).entities@.update(
                        k,
                        seeker_punished(old(self).entities@[k]),
                    ));
            } else {
                assert(self.entities@ =~= old(self).entities@);
            }
        }
        res
    }

    /// Collect the (unique) seeker and all hiders for win-condition
    /// evaluation.
    pub fn get_seeker_hiders_summary(&self) -> (summary: SeekerHidersSummary)
        ensures
            summary.seeker == seeker_of(self.entities@),
            summary.hiders@ == hiders_of(self.entities@),
    {
        let mut seeker: Option<(EntityId, SeekerStats)> = None;
        let mut hiders: Vec<(EntityId, HiderStats)> = Vec::new();
        let n = self.entities.len();
        let mut i: usize = 0;
        while i < n
            invariant
                n == self.entities@.len(),
                i <= n,
                seeker == seeker_of(self.entities@.take(i as int)),
                hiders@ == hiders_of(self.entities@.take(i as int)),
            decreases n - i,
        {
            proof {
                assert(self.entities@.take(i + 1).drop_last() =~= self.entities@.take(i as int));
                assert(self.entities@.take(i + 1).last() == self.entities@[i as int]);
            }
            let entity = &self.entities[i];
            match &entity.controller {
                EntityController::Player(player_ctrl) => {
                    match player_ctrl.role {
                        PlayerRole::Hider { stats } => hiders.push((entity.id, stats)),
                        PlayerRole::Seeker { stats } => seeker = Some((entity.id, stats)),
                    }
                },
                EntityController::Npc(_) => {},
            }
            i += 1;
        }
        proof {
            assert(self.entities@.take(n as int) =~= self.entities@);
        }
        SeekerHidersSummary { seeker, hiders }
    }

    /// Take one tick of seeking time from the seeker, if there is one.
    pub fn tick_seeker_remaining_time(&mut self)
        ensures
            final(self).new_entity_id == old(self).new_entity_id,
            (exists|i: int|
                0 <= i < old(self).entities@.len() && is_seeker_entity(
                    #[trigger] old(self).entities@[i],
                )) ==> exists|i: int|
                0 <= i < old(self).entities@.len() && is_seeker_entity(
                    #[trigger] old(self).entities@[i],
                ) && final(self).entities@ == old(self).entities@.update(
                    i,
                    seeker_time_ticked(old(self).entities@[i]),
                ),
            (forall|i: int|
                0 <= i < old(self).entities@.len() ==> !is_seeker_entity(
                    #[trigger] old(self).entities@[i],
                )) ==> *final(self) == *old(self),
            old(self).wf() ==> final(self).wf(),
    {
        let ghost old_entities = self.entities@;
        let n = self.entities.len();
        let mut i: usize = 0;
        while i < n
            invariant
                n == self.entities@.len(),
                i <= n,
                self.entities == old(self).entities,
                self.new_entity_id == old(self).new_entity_id,
                forall|j: int| 0 <= j < i ==> !is_seeker_entity(#[trigger] self.entities@[j]),
            decreases n - i,
        {
            let found = match &self.entities[i].controller {
                EntityController::Player(player_controller) => {
                    match player_controller.role {
                        PlayerRole::Seeker { stats } => Some(stats),
                        PlayerRole::Hider { .. } => None,
                    }
                },
                EntityController::Npc(_) => None,
            };
            if let Some(stats) = found {
                let new_ticks = if stats.remaining_ticks > 0 {
                    stats.remaining_ticks - 1
                } else {
                    0
                };
                let entity = &mut self.entities[i];
                entity.controller = EntityController::Player(
                    PlayerController {
                        role: PlayerRole::Seeker {
                            stats: SeekerStats { remaining_ticks: new_ticks, ..stats },
                        },
                    },
                );
                proof {
                    let k = i as int;
                    assert(is_seeker_entity(old(self).entities@[k]));
                    assert(self.entities@ =~= old(self).entities@.update(
                        k,
                        seeker_time_ticked(old(self).entities@[k]),
                    ));
                }
                return ;
            }
            i += 1;
        }
    }

    /// Start moving an entity to a (grid-aligned, free) tile. The
    /// destination tile is checked for occupancy before the entity is even
    /// looked up; callers must make sure the entity is not already moving.
    pub fn try_start_move_entity_to(&mut self, entity_id: EntityId, next_position: Vector2Fx) -> (r:
        Result<(), WorldError>)
        requires
            old(self).wf(),
            aligned_vec(next_position),
            vec_ok(next_position),
            forall|i: int|
                0 <= i < old(self).entities@.len() && #[trigger] old(self).entities@[i].id
                    == entity_id ==> !old(self).entities@[i].spec_is_moving(),
        ensures
            final(self).new_entity_id == old(self).new_entity_id,
            match r {
                Ok(()) => !old(self).spec_tile_occupied(next_position) && exists|i: int|
                    0 <= i < old(self).entities@.len() && #[trigger] old(self).entities@[i].id
                        == entity_id && final(self).entities@ == old(self).entities@.update(
                        i,
                        Entity {
                            state: EntityState::Moving {
                                from_position: old(self).entities@[i].position,
                                destination: next_position,
                            },
                            ..old(self).entities@[i]
                        },
                    ),
                Err(WorldError::EntityCannotMoveThere) => old(self).spec_tile_occupied(
                    next_position,
                ) && *final(self) == *old(self),
                Err(WorldError::EntityNotExist) => !old(self).spec_tile_occupied(next_position)
                    && !old(self).spec_has_entity(entity_id) && *final(self) == *old(self),
                Err(_) => false,
            },
            final(self).wf(),
    {
        if self.is_tile_occupied(&next_position) {
            Err(WorldError::EntityCannotMoveThere)
        } else {
            let idx = match self.find_entity_index(entity_id) {
                Some(i) => i,
                None => {
                    return Err(WorldError::EntityNotExist);
                },
            };
            let ghost old_entities = self.entities@;
            let from_position = self.entities[idx].position;
            let entity = &mut self.entities[idx];
            entity.state = EntityState::Moving { from_position, destination: next_position };
            proof {
                assert(self.entities@ =~= old_entities.update(
                    idx as int,
                    Entity {
                        state: EntityState::Moving {
                            from_position: old_entities[idx as int].position,
                            destination: next_position,
                        },
                        ..old_entities[idx as int]
                    },
                ));
            }
            Ok(())
        }
    }
}

// ---------------------------------------------------------------------------
// Tile enumeration around a point
// ---------------------------------------------------------------------------
/// Half a tile on both axes; corner samples are pulled inward by this much.
pub open spec fn spec_half_tile() -> Vector2Fx {
    Vector2X { x: 25int as i64, y: 25int as i64 }
}

/// Number of tiles the enumeration spans on each side of the centre.
pub open spec fn tile_span(circle_range: int) -> int {
    (circle_range + TILE_SIZE - 1) / (TILE_SIZE as int)
}

pub open spec fn bool_to_int(b: bool) -> int {
    if b {
        1
    } else {
        0
    }
}

/// One corner sample: the corner of tile-offset grid point `(cx, cy)`,
/// pulled half a tile toward the tile's own centre, lies within the circle.
pub open spec fn corner_hit(cx: int, cy: int, range_sq: int) -> bool {
    let px = (TILE_SIZE as int) * cx - 25;
    let py = (TILE_SIZE as int) * cy - 25;
    px * px + py * py <= range_sq
}

/// The two-of-four corner rule: a tile offset is selected when at least two
/// of its four corner samples fall within the circle.
pub open spec fn tile_selected(ix: int, iy: int, range_sq: int) -> bool {
    bool_to_int(corner_hit(ix, iy, range_sq)) + bool_to_int(corner_hit(ix + 1, iy, range_sq))
        + bool_to_int(corner_hit(ix, iy + 1, range_sq)) + bool_to_int(
        corner_hit(ix + 1, iy + 1, range_sq),
    ) >= 2
}

/// Position of the tile at offset `(ix, iy)` from the centre point.
pub open spec fn tile_offset_pos(center: Vector2Fx, ix: int, iy: int) -> Vector2Fx {
    Vector2X {
        x: (center.x + (TILE_SIZE as int) * ix) as i64,
        y: (center.y + (TILE_SIZE as int) * iy) as i64,
    }
}

/// Whether the enumeration over these entities reports the tile at offset
/// `(ix, iy)`: it must pass the corner rule, and its occupancy must match
/// the kind of search.
pub open spec fn tile_reported(
    s: Seq<Entity>,
    center: Vector2Fx,
    range_sq: int,
    find_free: bool,
    ix: int,
    iy: int,
) -> bool {
    &&& tile_selected(ix, iy, range_sq)
    &&& find_free != tile_occupied_by(s, tile_offset_pos(center, ix, iy))
}

/// Tiles reported in one row `iy`, for offsets `ix` up to `n`, in order.
pub open spec fn tiles_in_row(
    s: Seq<Entity>,
    center: Vector2Fx,
    range_sq: int,
    find_free: bool,
    n: int,
    iy: int,
    ix: int,
) -> Seq<Vector2Fx>
    decreases n - ix + 1 when ix <= n + 1
{
    if ix > n {
        Seq::empty()
    } else {
        (if tile_reported(s, center, range_sq, find_free, ix, iy) {
            seq![tile_offset_pos(center, ix, iy)]
        } else {
            Seq::empty()
        }) + tiles_in_row(s, center, range_sq, find_free, n, iy, ix + 1)
    }
}

/// Tiles reported in rows `iy` up to `n`, row-major, in order.
pub open spec fn tiles_in_rows(
    s: Seq<Entity>,
    center: Vector2Fx,
    range_sq: int,
    find_free: bool,
    n: int,
    iy: int,
) -> Seq<Vector2Fx>
    decreases n - iy + 1 when iy <= n + 1
{
    if iy > n {
        Seq::empty()
    } else {
        tiles_in_row(s, center, range_sq, find_free, n, iy, -n) + tiles_in_rows(
            s,
            center,
            range_sq,
            find_free,
            n,
            iy + 1,
        )
    }
}

/// The full enumeration: all reported tiles within the span of the circle,
/// row-major from the lower-left.
pub open spec fn spec_tiles_positions(
    s: Seq<Entity>,
    center: Vector2Fx,
    circle_range: int,
    find_free: bool,
) -> Seq<Vector2Fx> {
    let n = tile_span(circle_range);
    tiles_in_rows(s, center, circle_range * circle_range, find_free, n, -n)
}

/// Every reported tile lies within the tile span around the centre.
pub open spec fn in_tile_window(center: Vector2Fx, circle_range: int, p: Vector2Fx) -> bool {
    &&& center.x - circle_range - TILE_SIZE <= p.x <= center.x + circle_range + TILE_SIZE
    &&& center.y - circle_range - TILE_SIZE <= p.y <= center.y + circle_range + TILE_SIZE
}

/// The query stays within coordinate limits: the whole tile span around
/// the centre fits.
pub open spec fn circle_query_ok(center: Vector2Fx, circle_range: int) -> bool {
    &&& -COORD_LIMIT <= center.x - circle_range - TILE_SIZE
    &&& center.x + circle_range + TILE_SIZE <= COORD_LIMIT
    &&& -COORD_LIMIT <= center.y - circle_range - TILE_SIZE
    &&& center.y + circle_range + TILE_SIZE <= COORD_LIMIT
}

/// Magnitudes bounded by squares: if `a*a <= b*b` and `b >= 0` then `a`
/// lies within `[-b, b]`.
pub proof fn lemma_abs_le_of_sq_le(a: int, b: int)
    requires
        a * a <= b * b,
        b >= 0,
    ensures
        -b <= a <= b,
{
    assert(-b <= a <= b) by (nonlinear_arith)
        requires
            a * a <= b * b,
            b >= 0,
    ;
}

/// One corner sample against the squared range.
fn corner_hit_exec(cx: i64, cy: i64, range_sq: i64) -> (r: bool)
    requires
        -400_002 <= cx <= 400_002,
        -400_002 <= cy <= 400_002,
        0 <= range_sq,
    ensures
        r == corner_hit(cx as int, cy as int, range_sq as int),
{
    let px = cx * TILE_SIZE - 25;
    let py = cy * TILE_SIZE - 25;
    proof {
        lemma_mul_bound(cx as int, TILE_SIZE as int, 400_002int);
        lemma_mul_bound(cy as int, TILE_SIZE as int, 400_002int);
        lemma_mul_bound(px as int, px as int, 20_000_125int);
        lemma_mul_bound(py as int, py as int, 20_000_125int);
        lemma_square_nonneg(px as int);
        lemma_square_nonneg(py as int);
        assert(20_000_125int * 20_000_125int == 400_005_000_015_625int) by (nonlinear_arith);
        assert(400_002int * 50 == 20_000_100int) by (nonlinear_arith);
    }
    px * px + py * py <= range_sq
}

impl World {
    /// Enumerate grid tiles intersecting the circle around `center_point`,
    /// filtered by occupancy. A tile counts as intersecting when at least
    /// two of its four inward-shifted corner samples lie within the circle;
    /// this deliberately overshoots at the boundary.
    fn get_tiles_positions(
        &self,
        center_point: Vector2Fx,
        circle_range: i64,
        find_free_tiles: bool,
    ) -> (r: Vec<Vector2Fx>)
        requires
            0 < circle_range <= 20_000_000,
            circle_query_ok(center_point, circle_range as int),
        ensures
            r@ == spec_tiles_positions(
                self.entities@,
                center_point,
                circle_range as int,
                find_free_tiles,
            ),
            forall|k: int| 0 <= k < r@.len() ==> vec_ok(#[trigger] r@[k]),
            forall|k: int|
                0 <= k < r@.len() ==> in_tile_window(
                    center_point,
                    circle_range as int,
                    #[trigger] r@[k],
                ),
            aligned_vec(center_point) ==> forall|k: int|
                0 <= k < r@.len() ==> aligned_vec(#[trigger] r@[k]),
    {
        proof {
            lemma_mul_bound(circle_range as int, circle_range as int, 20_000_000int);
            lemma_square_nonneg(circle_range as int);
            assert(20_000_000int * 20_000_000int == 400_000_000_000_000int) by (nonlinear_arith);
        }
        let range_sq = circle_range * circle_range;
        let span_u = (((circle_range as u64) + 49) / 50) as i64;
        let ghost n = tile_span(circle_range as int);
        proof {
            assert(span_u as int == n);
            assert(0 <= n <= 400_000);
        }
        let ghost es = self.entities@;
        let mut results: Vec<Vector2Fx> = Vec::new();

        let mut iy: i64 = -span_u;
        while iy <= span_u
            invariant
                0 < circle_range <= 20_000_000,
                range_sq == circle_range * circle_range,
                0 <= range_sq,
                circle_query_ok(center_point, circle_range as int),
                span_u == n,
                n == tile_span(circle_range as int),
                0 <= n <= 400_000,
                -n <= iy <= n + 1,
                es == self.entities@,
                results@ + tiles_in_rows(es, center_point, range_sq as int, find_free_tiles, n, iy as int)
                    == tiles_in_rows(es, center_point, range_sq as int, find_free_tiles, n, -n),
                forall|k: int| 0 <= k < results@.len() ==> vec_ok(#[trigger] results@[k]),
                forall|k: int|
                    0 <= k < results@.len() ==> in_tile_window(
                        center_point,
                        circle_range as int,
                        #[trigger] results@[k],
                    ),
                aligned_vec(center_point) ==> forall|k: int|
                    0 <= k < results@.len() ==> aligned_vec(#[trigger] results@[k]),
            decreases n + 1 - iy,
        {
            let mut ix: i64 = -span_u;
            while ix <= span_u
                invariant
                    0 < circle_range <= 20_000_000,
                    range_sq == circle_range * circle_range,
                    0 <= range_sq,
                    circle_query_ok(center_point, circle_range as int),
                    span_u == n,
                    n == tile_span(circle_range as int),
                    0 <= n <= 400_000,
                    -n <= iy <= n,
                    -n <= ix <= n + 1,
                    es == self.entities@,
                    results@ + tiles_in_row(
                        es,
                        center_point,
                        range_sq as int,
                        find_free_tiles,
                        n,
                        iy as int,
                        ix as int,
                    ) + tiles_in_rows(
                        es,
                        center_point,
                        range_sq as int,
                        find_free_tiles,
                        n,
                        iy as int + 1,
                    ) == tiles_in_rows(es, center_point, range_sq as int, find_free_tiles, n, -n),
                    forall|k: int| 0 <= k < results@.len() ==> vec_ok(#[trigger] results@[k]),
                    forall|k: int|
                        0 <= k < results@.len() ==> in_tile_window(
                            center_point,
                            circle_range as int,
                            #[trigger] results@[k],
                        ),
                    aligned_vec(center_point) ==> forall|k: int|
                        0 <= k < results@.len() ==> aligned_vec(#[trigger] results@[k]),
                decreases n + 1 - ix,
            {
                let c1 = corner_hit_exec(ix, iy, range_sq);
                let c2 = corner_hit_exec(ix + 1, iy, range_sq);
                let c3 = corner_hit_exec(ix, iy + 1, range_sq);
                let c4 = corner_hit_exec(ix + 1, iy + 1, range_sq);
                let mut corners: u32 = 0;
                if c1 {
                    corners = corners + 1;
                }
                if c2 {
                    corners = corners + 1;
                }
                if c3 {
                    corners = corners + 1;
                }
                if c4 {
                    corners = corners + 1;
                }
                if corners >= 2 {
                    proof {
                        assert(50 * n <= circle_range + 49) by {
                            lemma_fundamental_div_mod(circle_range as int + 49, 50);
                            lemma_mod_division_less_than_divisor(circle_range as int + 49, 50);
                        };
                        assert(-(circle_range as int) - 50 <= 50 * (ix as int) <= circle_range
                            + 50) by (nonlinear_arith)
                            requires
                                -n <= ix <= n,
                                0 <= n,
                                50 * n <= circle_range + 49,
                        ;
                        assert(-(circle_range as int) - 50 <= 50 * (iy as int) <= circle_range
                            + 50) by (nonlinear_arith)
                            requires
                                -n <= iy <= n,
                                0 <= n,
                                50 * n <= circle_range + 49,
                        ;
                        assert((ix as int) * 50 == 50 * (ix as int)) by (nonlinear_arith);
                        assert((iy as int) * 50 == 50 * (iy as int)) by (nonlinear_arith);
                    }
                    let tile_position = center_point.plus(get_tiled_vec(ix, iy));
                    if find_free_tiles != self.is_tile_occupied(&tile_position) {
                        results.push(tile_position);
                        proof {
                            if aligned_vec(center_point) {
                                lemma_mod_multiples_basic(ix as int, TILE_SIZE as int);
                                lemma_mod_multiples_basic(iy as int, TILE_SIZE as int);
                                lemma_add_mod_noop(
                                    center_point.x as int,
                                    (TILE_SIZE as int) * (ix as int),
                                    TILE_SIZE as int,
                                );
                                lemma_add_mod_noop(
                                    center_point.y as int,
                                    (TILE_SIZE as int) * (iy as int),
                                    TILE_SIZE as int,
                                );
                                assert(aligned_vec(tile_position));
                            }
                        }
                    }
                }
                ix = ix + 1;
            }
            iy = iy + 1;
        }
        results
    }

    /// Free tiles intersecting the circle around `center_point`.
    pub fn get_free_tiles_positions(&self, center_point: Vector2Fx, circle_range: i64) -> (r: Vec<
        Vector2Fx,
    >)
        requires
            0 < circle_range <= 20_000_000,
            circle_query_ok(center_point, circle_range as int),
        ensures
            r@ == spec_tiles_positions(self.entities@, center_point, circle_range as int, true),
            forall|k: int| 0 <= k < r@.len() ==> vec_ok(#[trigger] r@[k]),
            forall|k: int|
                0 <= k < r@.len() ==> in_tile_window(
                    center_point,
                    circle_range as int,
                    #[trigger] r@[k],
                ),
            aligned_vec(center_point) ==> forall|k: int|
                0 <= k < r@.len() ==> aligned_vec(#[trigger] r@[k]),
    {
        self.get_tiles_positions(center_point, circle_range, true)
    }

    /// Occupied tiles intersecting the circle around `center_point`.
    pub fn get_occupied_tiles_positions(&self, center_point: Vector2Fx, circle_range: i64) -> (r:
        Vec<Vector2Fx>)
        requires
            0 < circle_range <= 20_000_000,
            circle_query_ok(center_point, circle_range as int),
        ensures
            r@ == spec_tiles_positions(self.entities@, center_point, circle_range as int, false),
    {
        self.get_tiles_positions(center_point, circle_range, false)
    }
}

// ---------------------------------------------------------------------------
// Simulation tick
// ---------------------------------------------------------------------------
/// Arrival test: once the dot product of the remaining vectors before and
/// after a step drops to this margin or below, the mover has reached (or
/// crossed) its destination.
pub const DOT_PRODUCT_CLOSENESS_MARGIN: i64 = 1;

/// One movement step of a coordinate toward its destination.
pub open spec fn step_coord(pos: int, dest: int, speed: int) -> int {
    if pos < dest {
        pos + speed
    } else if pos > dest {
        pos - speed
    } else {
        pos
    }
}

/// Positions that block NPC destination choices this tick: for each entity
/// in list order, the endpoints of its move, or its resting position. The
/// snapshot is taken before any entity moves, so two NPCs picking in the
/// same tick cannot see each other's fresh choice; that is the intended
/// policy.
pub open spec fn occupied_snapshot(s: Seq<Entity>) -> Seq<Vector2Fx>
    decreases s.len(),
{
    if s.len() == 0 {
        Seq::empty()
    } else {
        occupied_snapshot(s.drop_last()) + (match s.last().state {
            EntityState::Moving { from_position, destination } => seq![
                destination,
                from_position,
            ],
            EntityState::Idle => seq![s.last().position],
        })
    }
}

/// The entity after arriving at `d`: snapped onto the destination, idle,
/// and (for NPCs) with a freshly drawn wander cooldown.
pub open spec fn arrived_rel(e: Entity, e1: Entity, d: Vector2Fx) -> bool {
    &&& e1.id == e.id
    &&& e1.name == e.name
    &&& e1.position == d
    &&& e1.color == e.color
    &&& e1.size == e.size
    &&& e1.state == EntityState::Idle
    &&& e1.stats == e.stats
    &&& match (e.controller, e1.controller) {
        (EntityController::Npc(n), EntityController::Npc(n1)) => {
            &&& n1.spawnpoint == n.spawnpoint
            &&& n1.roaming_range == n.roaming_range
            &&& NPC_DIRECTION_TICKS_MIN <= n1.change_destination_counter
                < NPC_DIRECTION_TICKS_MAX
        },
        (EntityController::Player(p), EntityController::Player(p1)) => p1 == p,
        _ => false,
    }
}

/// The movement phase of one entity in one tick: idle entities are left
/// alone; a mover advances one step per axis toward its destination, and
/// snaps onto it once the dot product of the remaining vectors before and
/// after the step falls to the margin.
pub open spec fn move_phase(e: Entity, e1: Entity) -> bool {
    match e.state {
        EntityState::Idle => e1 == e,
        EntityState::Moving { from_position, destination } => {
            let nx = step_coord(
                e.position.x as int,
                destination.x as int,
                e.stats.movement_speed as int,
            );
            let ny = step_coord(
                e.position.y as int,
                destination.y as int,
                e.stats.movement_speed as int,
            );
            let dot = (destination.x - e.position.x) * (destination.x - nx) + (destination.y
                - e.position.y) * (destination.y - ny);
            if dot <= DOT_PRODUCT_CLOSENESS_MARGIN {
                arrived_rel(e, e1, destination)
            } else {
                e1 == Entity { position: Vector2X { x: nx as i64, y: ny as i64 }, ..e }
            }
        },
    }
}

/// The four axis-aligned unit directions an NPC may pick from.
pub open spec fn dir_vec(k: int) -> Vector2Fx {
    if k == 0 {
        Vector2X { x: 1i64, y: 0i64 }
    } else if k == 1 {
        Vector2X { x: -1i64, y: 0i64 }
    } else if k == 2 {
        Vector2X { x: 0i64, y: 1i64 }
    } else {
        Vector2X { x: 0i64, y: -1i64 }
    }
}

/// Outcome of an idle, cooled-down NPC picking direction `k`: the one-tile
/// destination is rejected when it leaves the roaming range or when the
/// occupancy snapshot already claims it; otherwise the NPC starts moving.
pub open spec fn wander_outcome(e1: Entity, e2: Entity, occ: Seq<Vector2Fx>, k: int) -> bool {
    match e1.controller {
        EntityController::Npc(n) => match n.roaming_range {
            Some(range) => {
                let d = Vector2X {
                    x: (e1.position.x + dir_vec(k).x * (TILE_SIZE as int)) as i64,
                    y: (e1.position.y + dir_vec(k).y * (TILE_SIZE as int)) as i64,
                };
                if (d.x - n.spawnpoint.x) * (d.x - n.spawnpoint.x) + (d.y - n.spawnpoint.y) * (
                d.y - n.spawnpoint.y) > range * range {
                    e2 == e1
                } else if occ.contains(d) {
                    e2 == e1
                } else {
                    e2 == Entity {
                        state: EntityState::Moving { from_position: e1.position, destination: d },
                        ..e1
                    }
                }
            },
            None => false,
        },
        _ => false,
    }
}

/// The wandering phase of one entity in one tick: an idle, roaming NPC
/// counts its cooldown down and, once it reaches zero, picks one of the
/// four directions at random; everything else is left alone.
pub open spec fn wander_phase(e1: Entity, e2: Entity, occ: Seq<Vector2Fx>) -> bool {
    match e1.controller {
        EntityController::Npc(n) => match n.roaming_range {
            Some(range) => {
                if e1.state == EntityState::Idle {
                    if n.change_destination_counter > 0 {
                        e2 == Entity {
                            controller: EntityController::Npc(
                                NpcController {
                                    change_destination_counter: (n.change_destination_counter
                                        - 1) as u32,
                                    ..n
                                },
                            ),
                            ..e1
                        }
                    } else {
                        exists|k: int| 0 <= k < 4 && #[trigger] wander_outcome(e1, e2, occ, k)
                    }
                } else {
                    e2 == e1
                }
            },
            None => e2 == e1,
        },
        EntityController::Player(_) => e2 == e1,
    }
}

/// Both phases of one entity in one tick, with the intermediate entity
/// named.
pub open spec fn tick_phases(e: Entity, e1: Entity, e2: Entity, occ: Seq<Vector2Fx>) -> bool {
    move_phase(e, e1) && wander_phase(e1, e2, occ)
}

/// How one entity may change over one tick: it first moves, then wanders.
pub open spec fn tick_rel(e: Entity, e2: Entity, occ: Seq<Vector2Fx>) -> bool {
    exists|e1: Entity| #[trigger] tick_phases(e, e1, e2, occ)
}

/// Linear scan for a position in a vector.
fn positions_contains(v: &Vec<Vector2Fx>, p: &Vector2Fx) -> (r: bool)
    ensures
        r == v@.contains(*p),
{
    let n = v.len();
    let mut i: usize = 0;
    while i < n
        invariant
            n == v@.len(),
            i <= n,
            forall|j: int| 0 <= j < i ==> v@[j] != *p,
        decreases n - i,
    {
        if v[i].x == p.x && v[i].y == p.y {
            proof {
                assert(v@[i as int] == *p);
            }
            return true;
        }
        i += 1;
    }
    false
}

impl World {
    /// Advance the simulation one tick: every moving entity advances one
    /// step and snaps onto its destination on arrival; every idle, roaming
    /// NPC counts its wander cooldown down and, at zero, tries a random
    /// one-tile move, checked against the roaming range and the occupancy
    /// snapshot taken before any entity moved this tick.
    pub fn tick(&mut self)
        requires
            old(self).wf(),
        ensures
            final(self).new_entity_id == old(self).new_entity_id,
            final(self).entities@.len() == old(self).entities@.len(),
            forall|i: int|
                0 <= i < old(self).entities@.len() ==> tick_rel(
                    old(self).entities@[i],
                    #[trigger] final(self).entities@[i],
                    occupied_snapshot(old(self).entities@),
                ),
            final(self).wf(),
    {
        // Snapshot of claimed positions, taken before anything moves.
        let mut occupied_positions: Vec<Vector2Fx> = Vec::new();
        let n = self.entities.len();
        let mut i: usize = 0;
        while i < n
            invariant
                n == self.entities@.len(),
                i <= n,
                occupied_positions@ == occupied_snapshot(self.entities@.take(i as int)),
            decreases n - i,
        {
            proof {
                assert(self.entities@.take(i + 1).drop_last() =~= self.entities@.take(i as int));
                assert(self.entities@.take(i + 1).last() == self.entities@[i as int]);
            }
            let entity = &self.entities[i];
            match &entity.state {
                EntityState::Moving { from_position, destination } => {
                    occupied_positions.push(*destination);
                    occupied_positions.push(*from_position);
                },
                EntityState::Idle => {
                    occupied_positions.push(entity.position);
                },
            }
            i += 1;
        }
        proof {
            assert(self.entities@.take(n as int) =~= self.entities@);
        }
        let ghost occ = occupied_positions@;

        let mut i: usize = 0;
        while i < n
            invariant
                old(self).wf(),
                n == self.entities@.len(),
                n == old(self).entities@.len(),
                i <= n,
                self.new_entity_id == old(self).new_entity_id,
                occ == occupied_snapshot(old(self).entities@),
                occupied_positions@ == occ,
                forall|j: int|
                    i <= j < n ==> self.entities@[j] == #[trigger] old(self).entities@[j],
                forall|j: int|
                    0 <= j < i ==> tick_rel(
                        old(self).entities@[j],
                        #[trigger] self.entities@[j],
                        occ,
                    ),
                forall|j: int|
                    0 <= j < i ==> (#[trigger] self.entities@[j]).wf() && self.entities@[j].id
                        == old(self).entities@[j].id && is_seeker_entity(self.entities@[j])
                        == is_seeker_entity(old(self).entities@[j]),
            decreases n - i,
        {
            let ghost old_e = old(self).entities@[i as int];
            proof {
                assert(old_e.wf());
            }
            // Movement phase.
            let state0 = self.entities[i].state;
            match state0 {
                EntityState::Moving { from_position, destination } => {
                    let speed = self.entities[i].stats.movement_speed;
                    let pos = self.entities[i].position;
                    let nx = if pos.x < destination.x {
                        pos.x + speed
                    } else if pos.x > destination.x {
                        pos.x - speed
                    } else {
                        pos.x
                    };
                    let ny = if pos.y < destination.y {
                        pos.y + speed
                    } else if pos.y > destination.y {
                        pos.y - speed
                    } else {
                        pos.y
                    };
                    let rbx = destination.x - pos.x;
                    let rby = destination.y - pos.y;
                    let rax = destination.x - nx;
                    let ray = destination.y - ny;
                    proof {
                        let m = 2 * COORD_LIMIT + 97;
                        assert(m * m == 4_000_000_388_000_009_409) by (nonlinear_arith)
                            requires
                                m == 2_000_000_097,
                        ;
                        lemma_mul_bound(rbx as int, rax as int, m as int);
                        lemma_mul_bound(rby as int, ray as int, m as int);
                    }
                    let dot = rbx * rax + rby * ray;
                    if dot <= DOT_PRODUCT_CLOSENESS_MARGIN {
                        let ctrl = self.entities[i].controller;
                        let new_ctrl = match ctrl {
                            EntityController::Npc(npc) => {
                                let c = random_u64_in(
                                    NPC_DIRECTION_TICKS_MIN as u64,
                                    NPC_DIRECTION_TICKS_MAX as u64,
                                ) as u32;
                                EntityController::Npc(
                                    NpcController { change_destination_counter: c, ..npc },
                                )
                            },
                            EntityController::Player(p) => EntityController::Player(p),
                        };
                        let e = &mut self.entities[i];
                        e.position = destination;
                        e.state = EntityState::Idle;
                        e.controller = new_ctrl;
                    } else {
                        let e = &mut self.entities[i];
                        e.position = Vector2X { x: nx, y: ny };
                    }
                },
                EntityState::Idle => {},
            }
            let ghost mid = self.entities@[i as int];
            proof {
                assert(move_phase(old_e, mid));
                assert(mid.wf());
            }
            // Wandering phase.
            let ctrl2 = self.entities[i].controller;
            let state2 = self.entities[i].state;
            let pos2 = self.entities[i].position;
            match ctrl2 {
                EntityController::Npc(npc) => {
                    match npc.roaming_range {
                        Some(range) => {
                            if matches!(state2, EntityState::Idle) {
                                if npc.change_destination_counter > 0 {
                                    let e = &mut self.entities[i];
                                    e.controller = EntityController::Npc(
                                        NpcController {
                                            change_destination_counter:
                                                npc.change_destination_counter - 1,
                                            ..npc
                                        },
                                    );
                                } else {
                                    let k = random_u64_in(0, 4);
                                    let direction = if k == 0 {
                                        Vector2X { x: 1, y: 0 }
                                    } else if k == 1 {
                                        Vector2X { x: -1, y: 0 }
                                    } else if k == 2 {
                                        Vector2X { x: 0, y: 1 }
                                    } else {
                                        Vector2X { x: 0, y: -1 }
                                    };
                                    let destination_position = pos2.plus(
                                        direction.scaled(TILE_SIZE),
                                    );
                                    let to_spawn = destination_position.minus(npc.spawnpoint);
                                    proof {
                                        let m = 2 * COORD_LIMIT + 100;
                                        assert(m * m == 4_000_000_400_000_010_000)
                                            by (nonlinear_arith)
                                            requires
                                                m == 2_000_000_100,
                                        ;
                                        lemma_mul_bound(to_spawn.x as int, to_spawn.x as int, m as int);
                                        lemma_mul_bound(to_spawn.y as int, to_spawn.y as int, m as int);
                                        lemma_square_nonneg(to_spawn.x as int);
                                        lemma_square_nonneg(to_spawn.y as int);
                                        lemma_mul_bound(range as int, range as int, 150int);
                                    }
                                    let dist_sq = to_spawn.length_squared();
                                    if dist_sq > range * range {
                                        // Destination out of roaming range: wait for next time.
                                    } else if positions_contains(
                                        &occupied_positions,
                                        &destination_position,
                                    ) {
                                        // Destination already claimed: wait for next time.
                                    } else {
                                        proof {
                                            lemma_abs_le_of_sq_le(to_spawn.x as int, 150int);
                                            lemma_abs_le_of_sq_le(to_spawn.y as int, 150int);
                                        }
                                        let e = &mut self.entities[i];
                                        e.state = EntityState::Moving {
                                            from_position: pos2,
                                            destination: destination_position,
                                        };
                                    }
                                    proof {
                                        assert(wander_outcome(
                                            mid,
                                            self.entities@[i as int],
                                            occ,
                                            k as int,
                                        ));
                                    }
                                }
                            }
                        },
                        None => {},
                    }
                },
                EntityController::Player(_) => {},
            }
            proof {
                let now = self.entities@[i as int];
                assert(wander_phase(mid, now, occ));
                assert(tick_phases(old_e, mid, now, occ));
                assert(now.wf());
            }
            i += 1;
        }
        proof {
            assert forall|i: int, j: int|
                0 <= i < j < self.entities@.len() implies #[trigger] self.entities@[i].id
                < #[trigger] self.entities@[j].id by {
                assert(old(self).entities@[i].id < old(self).entities@[j].id);
            }
        }
    }
}

/// Floor one coordinate onto the grid.
fn align_value(c: i64) -> (r: i64)
    requires
        -COORD_LIMIT <= c <= COORD_LIMIT,
    ensures
        r as int == align_coord(c as int),
{
    if c >= 0 {
        let m = c as u64;
        let a = (m / 50) * 50;
        proof {
            lemma_fundamental_div_mod(m as int, 50);
            lemma_mod_division_less_than_divisor(m as int, 50);
            assert(a as int == align_coord(c as int));
        }
        a as i64
    } else {
        let m = (-c) as u64;
        let q = m / 50;
        let rem = m % 50;
        proof {
            lemma_fundamental_div_mod(m as int, 50);
            lemma_mod_division_less_than_divisor(m as int, 50);
        }
        if rem == 0 {
            let r = -((q * 50) as i64);
            proof {
                lemma_fundamental_div_mod_converse_mod(c as int, 50, -(q as int), 0);
                assert(r as int == align_coord(c as int));
            }
            r
        } else {
            let r = -((q * 50) as i64) - 50;
            proof {
                lemma_fundamental_div_mod_converse_mod(
                    c as int,
                    50,
                    -(q as int) - 1,
                    50 - (rem as int),
                );
                assert(r as int == align_coord(c as int));
            }
            r
        }
    }
}


/// Entity ids are unique within a world: the list keeps them strictly
/// increasing, so no two entities ever share an id. Together with the
/// factory contracts (a fresh entity's id is the counter, larger than every
/// stored id) and removal keeping the counter, ids stay unique and strictly
/// increasing for the world's whole lifetime, even across removals.
pub proof fn lemma_entity_ids_unique(w: World)
    requires
        w.wf(),
    ensures
        forall|i: int, j: int|
            0 <= i < w.entities@.len() && 0 <= j < w.entities@.len() && i != j
                ==> (#[trigger] w.entities@[i]).id != (#[trigger] w.entities@[j]).id,
        forall|i: int|
            0 <= i < w.entities@.len() ==> (#[trigger] w.entities@[i]).id < w.new_entity_id,
{
    assert forall|i: int, j: int|
        0 <= i < w.entities@.len() && 0 <= j < w.entities@.len() && i != j implies (
    #[trigger] w.entities@[i]).id != (#[trigger] w.entities@[j]).id by {
        if i < j {
            assert(w.entities@[i].id < w.entities@[j].id);
        } else {
            assert(w.entities@[j].id < w.entities@[i].id);
        }
    }
}


// ---------------------------------------------------------------------------
// Properties of the tile enumeration
// ---------------------------------------------------------------------------
/// Within a query's span, a tile offset's coordinates are exact sums and
/// stay within the coordinate limits.
pub proof fn lemma_tile_offset_coords(center: Vector2Fx, circle_range: int, ix: int, iy: int)
    requires
        0 < circle_range,
        circle_query_ok(center, circle_range),
        -tile_span(circle_range) <= ix <= tile_span(circle_range),
        -tile_span(circle_range) <= iy <= tile_span(circle_range),
    ensures
        tile_offset_pos(center, ix, iy).x as int == center.x + (TILE_SIZE as int) * ix,
        tile_offset_pos(center, ix, iy).y as int == center.y + (TILE_SIZE as int) * iy,
        vec_ok(tile_offset_pos(center, ix, iy)),
{
    let n = tile_span(circle_range);
    assert(50 * n <= circle_range + 49 && n >= 1) by {
        lemma_fundamental_div_mod(circle_range + 49, 50);
        lemma_mod_division_less_than_divisor(circle_range + 49, 50);
        assert(50 * n >= circle_range);
        assert(n >= 1) by (nonlinear_arith)
            requires
                50 * n >= circle_range,
                circle_range >= 1,
        ;
    };
    assert(-circle_range - 50 <= 50 * ix <= circle_range + 50) by (nonlinear_arith)
        requires
            -n <= ix <= n,
            1 <= n,
            50 * n <= circle_range + 49,
    ;
    assert(-circle_range - 50 <= 50 * iy <= circle_range + 50) by (nonlinear_arith)
        requires
            -n <= iy <= n,
            1 <= n,
            50 * n <= circle_range + 49,
    ;
}

/// Distinct offsets within the span give distinct tile positions.
pub proof fn lemma_tile_offset_injective(
    center: Vector2Fx,
    circle_range: int,
    ix1: int,
    iy1: int,
    ix2: int,
    iy2: int,
)
    requires
        0 < circle_range,
        circle_query_ok(center, circle_range),
        -tile_span(circle_range) <= ix1 <= tile_span(circle_range),
        -tile_span(circle_range) <= iy1 <= tile_span(circle_range),
        -tile_span(circle_range) <= ix2 <= tile_span(circle_range),
        -tile_span(circle_range) <= iy2 <= tile_span(circle_range),
        tile_offset_pos(center, ix1, iy1) == tile_offset_pos(center, ix2, iy2),
    ensures
        ix1 == ix2,
        iy1 == iy2,
{
    lemma_tile_offset_coords(center, circle_range, ix1, iy1);
    lemma_tile_offset_coords(center, circle_range, ix2, iy2);
    assert(center.x + 50 * ix1 == center.x + 50 * ix2);
    assert(ix1 == ix2) by (nonlinear_arith)
        requires
            50 * ix1 == 50 * ix2,
    ;
    assert(center.y + 50 * iy1 == center.y + 50 * iy2);
    assert(iy1 == iy2) by (nonlinear_arith)
        requires
            50 * iy1 == 50 * iy2,
    ;
}

/// Every entry of a row enumeration is a reported cell of that row.
pub proof fn lemma_tiles_in_row_elems(
    s: Seq<Entity>,
    center: Vector2Fx,
    range_sq: int,
    find_free: bool,
    n: int,
    iy: int,
    ix: int,
    k: int,
)
    requires
        ix <= n + 1,
        0 <= k < tiles_in_row(s, center, range_sq, find_free, n, iy, ix).len(),
    ensures
        exists|ix2: int|
            ix <= ix2 <= n && #[trigger] tile_reported(s, center, range_sq, find_free, ix2, iy)
                && tiles_in_row(s, center, range_sq, find_free, n, iy, ix)[k] == tile_offset_pos(
                center,
                ix2,
                iy,
            ),
    decreases n - ix + 1,
{
    let row = tiles_in_row(s, center, range_sq, find_free, n, iy, ix);
    let rest = tiles_in_row(s, center, range_sq, find_free, n, iy, ix + 1);
    if tile_reported(s, center, range_sq, find_free, ix, iy) {
        if k == 0 {
            assert(row[0] == tile_offset_pos(center, ix, iy));
        } else {
            lemma_tiles_in_row_elems(s, center, range_sq, find_free, n, iy, ix + 1, k - 1);
            let ix2 = choose|ix2: int|
                ix + 1 <= ix2 <= n && #[trigger] tile_reported(
                    s,
                    center,
                    range_sq,
                    find_free,
                    ix2,
                    iy,
                ) && rest[k - 1] == tile_offset_pos(center, ix2, iy);
            assert(row[k] == rest[k - 1]);
            assert(tile_reported(s, center, range_sq, find_free, ix2, iy));
        }
    } else {
        lemma_tiles_in_row_elems(s, center, range_sq, find_free, n, iy, ix + 1, k);
        let ix2 = choose|ix2: int|
            ix + 1 <= ix2 <= n && #[trigger] tile_reported(s, center, range_sq, find_free, ix2, iy)
                && rest[k] == tile_offset_pos(center, ix2, iy);
        assert(row[k] == rest[k]);
        assert(tile_reported(s, center, range_sq, find_free, ix2, iy));
    }
}

/// Every entry of the row-major enumeration is a reported cell within the
/// span.
pub proof fn lemma_tiles_in_rows_elems(
    s: Seq<Entity>,
    center: Vector2Fx,
    range_sq: int,
    find_free: bool,
    n: int,
    iy: int,
    k: int,
)
    requires
        iy <= n + 1,
        -n <= n + 1,
        0 <= k < tiles_in_rows(s, center, range_sq, find_free, n, iy).len(),
    ensures
        exists|ix2: int, iy2: int|
            -n <= ix2 <= n && iy <= iy2 <= n && #[trigger] tile_reported(
                s,
                center,
                range_sq,
                find_free,
                ix2,
                iy2,
            ) && tiles_in_rows(s, center, range_sq, find_free, n, iy)[k] == tile_offset_pos(
                center,
                ix2,
                iy2,
            ),
    decreases n - iy + 1,
{
    let rows = tiles_in_rows(s, center, range_sq, find_free, n, iy);
    let head = tiles_in_row(s, center, range_sq, find_free, n, iy, -n);
    let rest = tiles_in_rows(s, center, range_sq, find_free, n, iy + 1);
    if k < head.len() {
        lemma_tiles_in_row_elems(s, center, range_sq, find_free, n, iy, -n, k);
        let ix2 = choose|ix2: int|
            -n <= ix2 <= n && #[trigger] tile_reported(s, center, range_sq, find_free, ix2, iy)
                && head[k] == tile_offset_pos(center, ix2, iy);
        assert(rows[k] == head[k]);
        assert(tile_reported(s, center, range_sq, find_free, ix2, iy));
    } else {
        lemma_tiles_in_rows_elems(s, center, range_sq, find_free, n, iy + 1, k - head.len());
        let (ix2, iy2) = choose|ix2: int, iy2: int|
            -n <= ix2 <= n && iy + 1 <= iy2 <= n && #[trigger] tile_reported(
                s,
                center,
                range_sq,
                find_free,
                ix2,
                iy2,
            ) && rest[k - head.len()] == tile_offset_pos(center, ix2, iy2);
        assert(rows[k] == rest[k - head.len()]);
        assert(tile_reported(s, center, range_sq, find_free, ix2, iy2));
    }
}

/// A reported cell of a row appears in that row's enumeration.
pub proof fn lemma_tiles_in_row_contains(
    s: Seq<Entity>,
    center: Vector2Fx,
    range_sq: int,
    find_free: bool,
    n: int,
    iy: int,
    ix: int,
    ix2: int,
)
    requires
        ix <= ix2 <= n,
        tile_reported(s, center, range_sq, find_free, ix2, iy),
    ensures
        tiles_in_row(s, center, range_sq, find_free, n, iy, ix).contains(
            tile_offset_pos(center, ix2, iy),
        ),
    decreases n - ix + 1,
{
    let row = tiles_in_row(s, center, range_sq, find_free, n, iy, ix);
    let rest = tiles_in_row(s, center, range_sq, find_free, n, iy, ix + 1);
    if ix == ix2 {
        assert(row[0] == tile_offset_pos(center, ix2, iy));
    } else {
        lemma_tiles_in_row_contains(s, center, range_sq, find_free, n, iy, ix + 1, ix2);
        let j = choose|j: int| 0 <= j < rest.len() && rest[j] == tile_offset_pos(center, ix2, iy);
        let h: int = if tile_reported(s, center, range_sq, find_free, ix, iy) {
            1
        } else {
            0
        };
        assert(row[h + j] == tile_offset_pos(center, ix2, iy));
    }
}

/// A reported cell within the span appears in the full enumeration.
pub proof fn lemma_tiles_in_rows_contains(
    s: Seq<Entity>,
    center: Vector2Fx,
    range_sq: int,
    find_free: bool,
    n: int,
    iy: int,
    iy2: int,
    ix2: int,
)
    requires
        iy <= iy2 <= n,
        -n <= ix2 <= n,
        tile_reported(s, center, range_sq, find_free, ix2, iy2),
    ensures
        tiles_in_rows(s, center, range_sq, find_free, n, iy).contains(
            tile_offset_pos(center, ix2, iy2),
        ),
    decreases n - iy + 1,
{
    let rows = tiles_in_rows(s, center, range_sq, find_free, n, iy);
    let head = tiles_in_row(s, center, range_sq, find_free, n, iy, -n);
    let rest = tiles_in_rows(s, center, range_sq, find_free, n, iy + 1);
    if iy == iy2 {
        lemma_tiles_in_row_contains(s, center, range_sq, find_free, n, iy, -n, ix2);
        let j = choose|j: int| 0 <= j < head.len() && head[j] == tile_offset_pos(center, ix2, iy2);
        assert(rows[j] == tile_offset_pos(center, ix2, iy2));
    } else {
        lemma_tiles_in_rows_contains(s, center, range_sq, find_free, n, iy + 1, iy2, ix2);
        let j = choose|j: int| 0 <= j < rest.len() && rest[j] == tile_offset_pos(center, ix2, iy2);
        assert(rows[head.len() + j] == tile_offset_pos(center, ix2, iy2));
    }
}

/// One row of the enumeration repeats no position.
proof fn lemma_tiles_in_row_no_dup(
    s: Seq<Entity>,
    center: Vector2Fx,
    circle_range: int,
    find_free: bool,
    n: int,
    iy: int,
    ix: int,
)
    requires
        0 < circle_range,
        circle_query_ok(center, circle_range),
        n == tile_span(circle_range),
        -n <= iy <= n,
        -n <= ix <= n + 1,
    ensures
        tiles_in_row(
            s,
            center,
            circle_range * circle_range,
            find_free,
            n,
            iy,
            ix,
        ).no_duplicates(),
    decreases n - ix + 1,
{
    let rs = circle_range * circle_range;
    let row = tiles_in_row(s, center, rs, find_free, n, iy, ix);
    if ix > n {
        assert(row.no_duplicates());
    } else {
        lemma_tiles_in_row_no_dup(s, center, circle_range, find_free, n, iy, ix + 1);
        let rest = tiles_in_row(s, center, rs, find_free, n, iy, ix + 1);
        let h: int = if tile_reported(s, center, rs, find_free, ix, iy) {
            1
        } else {
            0
        };
        assert forall|a: int, b: int|
            0 <= a < row.len() && 0 <= b < row.len() && a != b implies row[a] != row[b] by {
            if a >= h && b >= h {
                assert(row[a] == rest[a - h]);
                assert(row[b] == rest[b - h]);
            } else {
                let inner: int = if a < h {
                    b
                } else {
                    a
                };
                assert(row[inner] == rest[inner - h]);
                lemma_tiles_in_row_elems(s, center, rs, find_free, n, iy, ix + 1, inner - h);
                let ix2 = choose|ix2: int|
                    ix + 1 <= ix2 <= n && #[trigger] tile_reported(
                        s,
                        center,
                        rs,
                        find_free,
                        ix2,
                        iy,
                    ) && rest[inner - h] == tile_offset_pos(center, ix2, iy);
                if row[a] == row[b] {
                    lemma_tile_offset_injective(center, circle_range, ix, iy, ix2, iy);
                    assert(false);
                }
            }
        }
    }
}

/// The full enumeration repeats no position.
proof fn lemma_tiles_in_rows_no_dup(
    s: Seq<Entity>,
    center: Vector2Fx,
    circle_range: int,
    find_free: bool,
    n: int,
    iy: int,
)
    requires
        0 < circle_range,
        circle_query_ok(center, circle_range),
        n == tile_span(circle_range),
        -n <= iy <= n + 1,
    ensures
        tiles_in_rows(s, center, circle_range * circle_range, find_free, n, iy).no_duplicates(),
    decreases n - iy + 1,
{
    let rs = circle_range * circle_range;
    let rows = tiles_in_rows(s, center, rs, find_free, n, iy);
    assert(n >= 1) by {
        lemma_fundamental_div_mod(circle_range + 49, 50);
        lemma_mod_division_less_than_divisor(circle_range + 49, 50);
        assert(50 * n >= circle_range);
        assert(n >= 1) by (nonlinear_arith)
            requires
                50 * n >= circle_range,
                circle_range >= 1,
        ;
    };
    if iy > n {
        assert(rows.no_duplicates());
    } else {
        lemma_tiles_in_row_no_dup(s, center, circle_range, find_free, n, iy, -n);
        lemma_tiles_in_rows_no_dup(s, center, circle_range, find_free, n, iy + 1);
        let head = tiles_in_row(s, center, rs, find_free, n, iy, -n);
        let rest = tiles_in_rows(s, center, rs, find_free, n, iy + 1);
        let h = head.len() as int;
        assert forall|a: int, b: int|
            0 <= a < rows.len() && 0 <= b < rows.len() && a != b implies rows[a] != rows[b] by {
            if a < h && b < h {
                assert(rows[a] == head[a]);
                assert(rows[b] == head[b]);
            } else if a >= h && b >= h {
                assert(rows[a] == rest[a - h]);
                assert(rows[b] == rest[b - h]);
            } else {
                let lo: int = if a < h {
                    a
                } else {
                    b
                };
                let hi: int = if a < h {
                    b
                } else {
                    a
                };
                assert(rows[lo] == head[lo]);
                assert(rows[hi] == rest[hi - h]);
                lemma_tiles_in_row_elems(s, center, rs, find_free, n, iy, -n, lo);
                let ixl = choose|ixl: int|
                    -n <= ixl <= n && #[trigger] tile_reported(s, center, rs, find_free, ixl, iy)
                        && head[lo] == tile_offset_pos(center, ixl, iy);
                lemma_tiles_in_rows_elems(s, center, rs, find_free, n, iy + 1, hi - h);
                let (ixh, iyh) = choose|ixh: int, iyh: int|
                    -n <= ixh <= n && iy + 1 <= iyh <= n && #[trigger] tile_reported(
                        s,
                        center,
                        rs,
                        find_free,
                        ixh,
                        iyh,
                    ) && rest[hi - h] == tile_offset_pos(center, ixh, iyh);
                if rows[a] == rows[b] {
                    lemma_tile_offset_injective(center, circle_range, ixl, iy, ixh, iyh);
                    assert(false);
                }
            }
        }
    }
}

/// The tile enumeration never reports a position twice.
pub proof fn lemma_tiles_positions_no_dup(
    s: Seq<Entity>,
    center: Vector2Fx,
    circle_range: int,
    find_free: bool,
)
    requires
        0 < circle_range,
        circle_query_ok(center, circle_range),
    ensures
        spec_tiles_positions(s, center, circle_range, find_free).no_duplicates(),
{
    let n = tile_span(circle_range);
    assert(n >= 1) by {
        lemma_fundamental_div_mod(circle_range + 49, 50);
        lemma_mod_division_less_than_divisor(circle_range + 49, 50);
        assert(50 * n >= circle_range);
        assert(n >= 1) by (nonlinear_arith)
            requires
                50 * n >= circle_range,
                circle_range >= 1,
        ;
    };
    lemma_tiles_in_rows_no_dup(s, center, circle_range, find_free, n, -n);
}

/// Two grid-aligned points within the same tile coincide.
proof fn lemma_aligned_in_tile(t: Vector2Fx, p: Vector2Fx)
    requires
        aligned_vec(t),
        aligned_vec(p),
        tile_rect(t).spec_contains(p),
    ensures
        p == t,
{
    let dx = p.x - t.x;
    let dy = p.y - t.y;
    lemma_sub_mod_noop(p.x as int, t.x as int, 50);
    lemma_sub_mod_noop(p.y as int, t.y as int, 50);
    lemma_small_mod(0nat, 50nat);
    lemma_small_mod(dx as nat, 50nat);
    lemma_small_mod(dy as nat, 50nat);
    assert(dx == 0 && dy == 0);
}

/// For idle, grid-aligned entities, a grid tile is occupied exactly when
/// some entity rests on it.
pub proof fn lemma_idle_tile_occupancy(s: Seq<Entity>, t: Vector2Fx)
    requires
        forall|i: int| 0 <= i < s.len() ==> (#[trigger] s[i]).wf() && s[i].state is Idle,
        aligned_vec(t),
    ensures
        tile_occupied_by(s, t) <==> exists|i: int|
            0 <= i < s.len() && (#[trigger] s[i]).position == t,
{
    if tile_occupied_by(s, t) {
        let i = choose|i: int| 0 <= i < s.len() && entity_occupies(#[trigger] s[i], t);
        lemma_aligned_in_tile(t, s[i].position);
        assert(s[i].position == t);
    }
    if exists|i: int| 0 <= i < s.len() && (#[trigger] s[i]).position == t {
        let i = choose|i: int| 0 <= i < s.len() && (#[trigger] s[i]).position == t;
        assert(entity_occupies(s[i], t));
    }
}

/// When strictly more tiles are free around the centre of an entity-less
/// list than there are idle entities, at least one free tile survives them.
pub proof fn lemma_free_tile_survives(s: Seq<Entity>, center: Vector2Fx, circle_range: int)
    requires
        0 < circle_range,
        circle_query_ok(center, circle_range),
        aligned_vec(center),
        forall|i: int| 0 <= i < s.len() ==> (#[trigger] s[i]).wf() && s[i].state is Idle,
        spec_tiles_positions(Seq::<Entity>::empty(), center, circle_range, true).len() > s.len(),
    ensures
        spec_tiles_positions(s, center, circle_range, true).len() > 0,
{
    broadcast use vstd::seq_lib::seq_to_set_is_finite;
    broadcast use vstd::set::group_set_axioms;

    let n = tile_span(circle_range);
    let rs = circle_range * circle_range;
    let blank = Seq::<Entity>::empty();
    let blank_tiles = spec_tiles_positions(blank, center, circle_range, true);
    let taken = Seq::new(s.len(), |i: int| s[i].position);
    lemma_tiles_positions_no_dup(blank, center, circle_range, true);
    assert(n >= 1) by {
        lemma_fundamental_div_mod(circle_range + 49, 50);
        lemma_mod_division_less_than_divisor(circle_range + 49, 50);
        assert(50 * n >= circle_range);
        assert(n >= 1) by (nonlinear_arith)
            requires
                50 * n >= circle_range,
                circle_range >= 1,
        ;
    };

    assert(exists|k: int|
        0 <= k < blank_tiles.len() && !taken.contains(#[trigger] blank_tiles[k])) by {
        if forall|k: int| 0 <= k < blank_tiles.len() ==> taken.contains(#[trigger] blank_tiles[k]) {
            blank_tiles.unique_seq_to_set();
            taken.lemma_cardinality_of_set();
            assert forall|p: Vector2Fx| blank_tiles.to_set().contains(p) implies taken.to_set().contains(
                p,
            ) by {
                assert(blank_tiles.contains(p));
                let k = choose|k: int| 0 <= k < blank_tiles.len() && blank_tiles[k] == p;
                assert(taken.contains(blank_tiles[k]));
            }
            vstd::set_lib::lemma_len_subset(blank_tiles.to_set(), taken.to_set());
            assert(false);
        }
    };
    let k = choose|k: int| 0 <= k < blank_tiles.len() && !taken.contains(#[trigger] blank_tiles[k]);
    lemma_tiles_in_rows_elems(blank, center, rs, true, n, -n, k);
    let (ix, iy) = choose|ix: int, iy: int|
        -n <= ix <= n && -n <= iy <= n && #[trigger] tile_reported(
            blank,
            center,
            rs,
            true,
            ix,
            iy,
        ) && blank_tiles[k] == tile_offset_pos(center, ix, iy);
    let t = tile_offset_pos(center, ix, iy);

    lemma_tile_offset_coords(center, circle_range, ix, iy);
    assert(aligned_vec(t)) by {
        lemma_mod_multiples_basic(ix, 50);
        lemma_mod_multiples_basic(iy, 50);
        assert(ix * 50 == 50 * ix) by (nonlinear_arith);
        assert(iy * 50 == 50 * iy) by (nonlinear_arith);
        lemma_add_mod_noop(center.x as int, 50 * ix, 50);
        lemma_add_mod_noop(center.y as int, 50 * iy, 50);
        lemma_small_mod(0nat, 50nat);
    };
    assert(!tile_occupied_by(s, t)) by {
        lemma_idle_tile_occupancy(s, t);
        if exists|i: int| 0 <= i < s.len() && (#[trigger] s[i]).position == t {
            let i = choose|i: int| 0 <= i < s.len() && (#[trigger] s[i]).position == t;
            assert(taken[i] == t);
            assert(taken.contains(t));
            assert(false);
        }
    };
    assert(tile_reported(s, center, rs, true, ix, iy));
    lemma_tiles_in_rows_contains(s, center, rs, true, n, -n, iy, ix);
    let tiles = spec_tiles_positions(s, center, circle_range, true);
    let j = choose|j: int| 0 <= j < tiles.len() && tiles[j] == t;
    assert(tiles.len() > 0);
}

} // verus!
