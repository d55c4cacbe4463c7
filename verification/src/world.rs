//! The simulation world: entity rosters, shared resources, the buffered
//! structural-command queue, and its application point.
//!
//! Following the frame model, systems never add or remove entities while
//! they run: they push `Command`s onto the queue, and `apply_commands`
//! applies them at a defined point before the next tick. Removal is
//! tolerant: despawning an id that is already gone is a no-op.

use vstd::prelude::*;

use crate::game::GameState;
use crate::geom::clamp_i;
use crate::levels::LevelState;

verus! {

/// Coordinates live in thousandths of a world unit and are kept inside
/// `[-POS_LIMIT, POS_LIMIT]`; position writes clamp into this arena, far
/// beyond the visible playfield.
pub const POS_LIMIT: i64 = 2_000_000_000_000;

/// Enemy ships stay inside `[-ARENA_LIMIT, ARENA_LIMIT]`, small enough
/// that squared pairwise distances cannot overflow.
pub const ARENA_LIMIT: i64 = 1_000_000_000;

/// No level roster ever holds more than this many ships.
pub const MAX_ROSTER: usize = 25;

/// The repeating enemy fire interval: 3.5 seconds.
pub const FIRE_PERIOD_MS: u32 = 3500;

/// A positioned gameplay entity: the player ship, an enemy ship, or a
/// projectile. `id` identifies it for tolerant despawn.
#[derive(Clone, Copy, PartialEq, Eq, Structural, Debug)]
pub struct Ship {
    pub id: u64,
    pub x: i64,
    pub y: i64,
}

/// Full-screen banners whose lifetime the state machine drives.
#[derive(Clone, Copy, PartialEq, Eq, Structural, Debug)]
pub enum OverlayKind {
    StartText,
    PauseBanner,
    GameOverBanner,
    WinBanner,
}

/// Audio cues the core asks the shell to play once.
#[derive(Clone, Copy, PartialEq, Eq, Structural, Debug)]
pub enum Cue {
    Pause,
    GameOver,
    Win,
    EnemyVolley,
    PlayerShot,
    EnemyHit,
    LaserClash,
}

/// Which way the player sprite points after the latest step input.
#[derive(Clone, Copy, PartialEq, Eq, Structural, Debug)]
pub enum Facing {
    Forward,
    LeftSide,
    RightSide,
}

/// A buffered structural change, applied between frames.
#[derive(Clone, Copy, PartialEq, Eq, Structural, Debug)]
pub enum Command {
    Despawn { id: u64 },
    SpawnPlayer { id: u64, x: i64, y: i64 },
    SpawnPlayerLaser { id: u64, x: i64, y: i64 },
    SpawnEnemyLaser { id: u64, x: i64, y: i64 },
    SpawnOverlay { kind: OverlayKind },
    ClearOverlays { kind: OverlayKind },
}

/// Edge-triggered key events for one frame; held keys do not repeat.
#[derive(Clone, Copy, PartialEq, Eq, Structural, Debug)]
pub struct Input {
    pub start: bool,
    pub pause: bool,
    pub restart: bool,
    pub fire: bool,
    pub left: bool,
    pub right: bool,
}

/// The whole simulation state for one run.
pub struct World {
    pub state: GameState,
    pub level: LevelState,
    /// Requested meta-state transition, applied between frames.
    pub pending_state: Option<GameState>,
    /// Requested level transition, applied between frames.
    pub pending_level: Option<LevelState>,
    pub player: Option<Ship>,
    pub player_facing: Facing,
    pub enemies_level_1: Vec<Ship>,
    pub enemies_level_2: Vec<Ship>,
    pub enemies_level_3: Vec<Ship>,
    pub player_lasers: Vec<Ship>,
    pub enemy_lasers: Vec<Ship>,
    pub overlays: Vec<OverlayKind>,
    /// True once the active level's roster has been fully created.
    pub spawned: bool,
    /// Elapsed time of the repeating enemy fire timer.
    pub fire_timer_ms: u32,
    /// Next fresh entity id.
    pub next_id: u64,
    /// Structural changes buffered during the tick.
    pub queue: Vec<Command>,
    /// Audio cues emitted this tick, for the shell to play.
    pub cues: Vec<Cue>,
    /// Whether gameplay entities are shown; true exactly while in game.
    pub gameplay_visible: bool,
}

/// The whole world as a mathematical value, field for field, with every
/// roster as a sequence. The frame loop's contract is stated as a
/// composition of per-system steps over this view.
#[verifier::ext_equal]
pub ghost struct WorldView {
    pub state: GameState,
    pub level: LevelState,
    pub pending_state: Option<GameState>,
    pub pending_level: Option<LevelState>,
    pub player: Option<Ship>,
    pub player_facing: Facing,
    pub enemies_level_1: Seq<Ship>,
    pub enemies_level_2: Seq<Ship>,
    pub enemies_level_3: Seq<Ship>,
    pub player_lasers: Seq<Ship>,
    pub enemy_lasers: Seq<Ship>,
    pub overlays: Seq<OverlayKind>,
    pub spawned: bool,
    pub fire_timer_ms: u32,
    pub next_id: u64,
    pub queue: Seq<Command>,
    pub cues: Seq<Cue>,
    pub gameplay_visible: bool,
}

impl View for World {
    type V = WorldView;

    open spec fn view(&self) -> WorldView {
        WorldView {
            state: self.state,
            level: self.level,
            pending_state: self.pending_state,
            pending_level: self.pending_level,
            player: self.player,
            player_facing: self.player_facing,
            enemies_level_1: self.enemies_level_1@,
            enemies_level_2: self.enemies_level_2@,
            enemies_level_3: self.enemies_level_3@,
            player_lasers: self.player_lasers@,
            enemy_lasers: self.enemy_lasers@,
            overlays: self.overlays@,
            spawned: self.spawned,
            fire_timer_ms: self.fire_timer_ms,
            next_id: self.next_id,
            queue: self.queue@,
            cues: self.cues@,
            gameplay_visible: self.gameplay_visible,
        }
    }
}

/// The entity-related part of the world, as mathematical sequences; the
/// command queue is applied as a fold over this store.
pub ghost struct EntStore {
    pub player: Option<Ship>,
    pub player_facing: Facing,
    pub enemies_level_1: Seq<Ship>,
    pub enemies_level_2: Seq<Ship>,
    pub enemies_level_3: Seq<Ship>,
    pub player_lasers: Seq<Ship>,
    pub enemy_lasers: Seq<Ship>,
    pub overlays: Seq<OverlayKind>,
}

impl World {
    /// The entity store this world holds.
    pub open spec fn store(&self) -> EntStore {
        EntStore {
            player: self.player,
            player_facing: self.player_facing,
            enemies_level_1: self.enemies_level_1@,
            enemies_level_2: self.enemies_level_2@,
            enemies_level_3: self.enemies_level_3@,
            player_lasers: self.player_lasers@,
            enemy_lasers: self.enemy_lasers@,
            overlays: self.overlays@,
        }
    }
}

/// The entity store a world view holds; `store_of(w@) == w.store()`.
pub open spec fn store_of(v: WorldView) -> EntStore {
    EntStore {
        player: v.player,
        player_facing: v.player_facing,
        enemies_level_1: v.enemies_level_1,
        enemies_level_2: v.enemies_level_2,
        enemies_level_3: v.enemies_level_3,
        player_lasers: v.player_lasers,
        enemy_lasers: v.enemy_lasers,
        overlays: v.overlays,
    }
}

/// A ship's coordinates lie inside `[-lim, lim]`.
pub open spec fn ship_bounded(e: Ship, lim: int) -> bool {
    -lim <= e.x <= lim && -lim <= e.y <= lim
}

/// Every ship of the sequence is bounded by `lim`.
pub open spec fn ships_bounded(s: Seq<Ship>, lim: int) -> bool {
    forall|i: int| 0 <= i < s.len() ==> ship_bounded(#[trigger] s[i], lim)
}

/// Any coordinates a spawn command carries lie inside the arena.
pub open spec fn cmd_bounded(c: Command) -> bool {
    match c {
        Command::SpawnPlayer { id, x, y } => -POS_LIMIT <= x <= POS_LIMIT && -POS_LIMIT <= y <= POS_LIMIT,
        Command::SpawnPlayerLaser { id, x, y } => -POS_LIMIT <= x <= POS_LIMIT && -POS_LIMIT <= y <= POS_LIMIT,
        Command::SpawnEnemyLaser { id, x, y } => -POS_LIMIT <= x <= POS_LIMIT && -POS_LIMIT <= y <= POS_LIMIT,
        _ => true,
    }
}

/// Every queued command is bounded.
pub open spec fn cmds_bounded(q: Seq<Command>) -> bool {
    forall|i: int| 0 <= i < q.len() ==> cmd_bounded(#[trigger] q[i])
}

/// Bounds on an entity store: enemies inside the arena and roster caps,
/// projectiles and player inside the coordinate range.
pub open spec fn store_wf(s: EntStore) -> bool {
    &&& ships_bounded(s.enemies_level_1, ARENA_LIMIT as int)
    &&& ships_bounded(s.enemies_level_2, ARENA_LIMIT as int)
    &&& ships_bounded(s.enemies_level_3, ARENA_LIMIT as int)
    &&& s.enemies_level_1.len() <= MAX_ROSTER
    &&& s.enemies_level_2.len() <= MAX_ROSTER
    &&& s.enemies_level_3.len() <= MAX_ROSTER
    &&& ships_bounded(s.player_lasers, POS_LIMIT as int)
    &&& ships_bounded(s.enemy_lasers, POS_LIMIT as int)
    &&& match s.player {
        Some(p) => ship_bounded(p, POS_LIMIT as int),
        None => true,
    }
}

/// Well-formedness of a world, preserved by every system and by the
/// application points.
pub open spec fn wf(w: World) -> bool {
    &&& store_wf(w.store())
    &&& cmds_bounded(w.queue@)
    &&& w.fire_timer_ms < FIRE_PERIOD_MS
    &&& (w.level != LevelState::Level1 ==> w.enemies_level_1@.len() == 0)
    &&& (w.level != LevelState::Level2 ==> w.enemies_level_2@.len() == 0)
    &&& (w.level != LevelState::Level3 ==> w.enemies_level_3@.len() == 0)
}

/// Neither the entity store nor the id counter changed.
pub open spec fn same_store(a: World, b: World) -> bool {
    a.store() == b.store() && a.next_id == b.next_id
}

/// The applied game state and level state did not change.
pub open spec fn same_modes(a: World, b: World) -> bool {
    a.state == b.state && a.level == b.level
}

/// No transition request was added or dropped.
pub open spec fn same_pending(a: World, b: World) -> bool {
    a.pending_state == b.pending_state && a.pending_level == b.pending_level
}

/// The spawned flag and the fire timer did not change.
pub open spec fn same_flags(a: World, b: World) -> bool {
    a.spawned == b.spawned && a.fire_timer_ms == b.fire_timer_ms
}

/// The command queue did not change.
pub open spec fn same_queue(a: World, b: World) -> bool {
    a.queue@ == b.queue@
}

/// The cue list did not change.
pub open spec fn same_cues(a: World, b: World) -> bool {
    a.cues@ == b.cues@
}

/// The visibility flag did not change.
pub open spec fn same_vis(a: World, b: World) -> bool {
    a.gameplay_visible == b.gameplay_visible
}

/// Nothing observable changed.
pub open spec fn world_unchanged(a: World, b: World) -> bool {
    &&& same_store(a, b)
    &&& same_modes(a, b)
    &&& same_pending(a, b)
    &&& same_flags(a, b)
    &&& same_queue(a, b)
    &&& same_cues(a, b)
    &&& same_vis(a, b)
}

/// Some ship of the sequence has this id.
pub open spec fn has_id(s: Seq<Ship>, id: u64) -> bool {
    exists|i: int| 0 <= i < s.len() && #[trigger] s[i].id == id
}

/// The ship occurs in the sequence.
pub open spec fn ship_in(s: Seq<Ship>, e: Ship) -> bool {
    exists|j: int| 0 <= j < s.len() && #[trigger] s[j] == e
}

/// The sequence with every ship of this id removed. With unique ids this
/// is the tolerant despawn of one entity: removing an absent id changes
/// nothing.
pub open spec fn remove_id(s: Seq<Ship>, id: u64) -> Seq<Ship>
    decreases s.len(),
{
    if s.len() == 0 {
        s
    } else {
        let rest = remove_id(s.drop_first(), id);
        if s.first().id == id {
            rest
        } else {
            seq![s.first()] + rest
        }
    }
}

/// The overlay list with every banner of this kind removed.
pub open spec fn remove_kind(s: Seq<OverlayKind>, kind: OverlayKind) -> Seq<OverlayKind>
    decreases s.len(),
{
    if s.len() == 0 {
        s
    } else {
        let rest = remove_kind(s.drop_first(), kind);
        if s.first() == kind {
            rest
        } else {
            seq![s.first()] + rest
        }
    }
}

/// One despawn command for each ship, in roster order.
pub open spec fn despawn_cmds(s: Seq<Ship>) -> Seq<Command> {
    s.map_values(|e: Ship| Command::Despawn { id: e.id })
}

/// What remains after a removal: fewer ships, none with the removed id,
/// and every survivor was already present.
pub proof fn lemma_remove_id_props(s: Seq<Ship>, id: u64)
    ensures
        remove_id(s, id).len() <= s.len(),
        forall|i: int| 0 <= i < remove_id(s, id).len() ==> (#[trigger] remove_id(s, id)[i]).id != id
            && ship_in(s, remove_id(s, id)[i]),
    decreases s.len(),
{
    if s.len() > 0 {
        lemma_remove_id_props(s.drop_first(), id);
        let rest = remove_id(s.drop_first(), id);
        assert forall|i: int| 0 <= i < rest.len() implies ship_in(s, rest[i]) by {
            let j = choose|j: int| 0 <= j < s.drop_first().len() && s.drop_first()[j] == rest[i];
            assert(s[j + 1] == rest[i]);
        }
        if s.first().id == id {
            assert(remove_id(s, id) == rest);
        } else {
            let res = seq![s.first()] + rest;
            assert(remove_id(s, id) == res);
            assert(res[0] == s.first());
            assert(s[0] == s.first());
            assert(ship_in(s, s.first()));
            assert forall|i: int| 0 < i < res.len() implies (#[trigger] res[i]).id != id
                && ship_in(s, res[i]) by {
                assert(res[i] == rest[i - 1]);
            }
        }
    }
}

/// Removing an id that no ship carries is a no-op.
pub proof fn lemma_remove_id_absent(s: Seq<Ship>, id: u64)
    requires
        !has_id(s, id),
    ensures
        remove_id(s, id) == s,
    decreases s.len(),
{
    if s.len() > 0 {
        assert(s[0].id != id);
        assert(s.first().id != id);
        assert forall|i: int| 0 <= i < s.drop_first().len() implies (#[trigger] s.drop_first()[i]).id
            != id by {
            assert(s.drop_first()[i] == s[i + 1]);
        }
        lemma_remove_id_absent(s.drop_first(), id);
        assert(seq![s.first()] + s.drop_first() =~= s);
    }
}

/// After a removal, no ship with the removed id remains.
pub proof fn lemma_remove_id_gone(s: Seq<Ship>, id: u64)
    ensures
        !has_id(remove_id(s, id), id),
{
    lemma_remove_id_props(s, id);
}

/// Removing the same id a second time changes nothing: tolerant despawn
/// is idempotent.
pub proof fn lemma_remove_id_idempotent(s: Seq<Ship>, id: u64)
    ensures
        remove_id(remove_id(s, id), id) == remove_id(s, id),
{
    lemma_remove_id_gone(s, id);
    lemma_remove_id_absent(remove_id(s, id), id);
}

/// Removing from the end: the removal of a pushed ship splits off.
pub proof fn lemma_remove_id_snoc(q: Seq<Ship>, x: Ship, id: u64)
    ensures
        remove_id(q.push(x), id) == if x.id == id {
            remove_id(q, id)
        } else {
            remove_id(q, id).push(x)
        },
    decreases q.len(),
{
    if q.len() == 0 {
        assert(q.push(x).first() == x);
        assert(q.push(x).drop_first() =~= q);
        if x.id != id {
            assert(seq![x] + remove_id(q, id) =~= remove_id(q, id).push(x));
        }
    } else {
        assert(q.push(x).first() == q.first());
        assert(q.push(x).drop_first() =~= q.drop_first().push(x));
        lemma_remove_id_snoc(q.drop_first(), x, id);
        if q.first().id != id && x.id != id {
            assert(seq![q.first()] + remove_id(q.drop_first(), id).push(x) =~= (seq![q.first()]
                + remove_id(q.drop_first(), id)).push(x));
        }
    }
}

/// Removing from the end, for overlays.
pub proof fn lemma_remove_kind_snoc(q: Seq<OverlayKind>, x: OverlayKind, kind: OverlayKind)
    ensures
        remove_kind(q.push(x), kind) == if x == kind {
            remove_kind(q, kind)
        } else {
            remove_kind(q, kind).push(x)
        },
    decreases q.len(),
{
    if q.len() == 0 {
        assert(q.push(x).first() == x);
        assert(q.push(x).drop_first() =~= q);
        if x != kind {
            assert(seq![x] + remove_kind(q, kind) =~= remove_kind(q, kind).push(x));
        }
    } else {
        assert(q.push(x).first() == q.first());
        assert(q.push(x).drop_first() =~= q.drop_first().push(x));
        lemma_remove_kind_snoc(q.drop_first(), x, kind);
        if q.first() != kind && x != kind {
            assert(seq![q.first()] + remove_kind(q.drop_first(), kind).push(x) =~= (seq![q.first()]
                + remove_kind(q.drop_first(), kind)).push(x));
        }
    }
}

/// A removal keeps every survivor inside the bound of the original.
pub proof fn lemma_remove_id_bounded(s: Seq<Ship>, id: u64, lim: int)
    requires
        ships_bounded(s, lim),
    ensures
        ships_bounded(remove_id(s, id), lim),
{
    lemma_remove_id_props(s, id);
    assert forall|i: int| 0 <= i < remove_id(s, id).len() implies ship_bounded(
        #[trigger] remove_id(s, id)[i],
        lim,
    ) by {
        let e = remove_id(s, id)[i];
        let j = choose|j: int| 0 <= j < s.len() && s[j] == e;
        assert(ship_bounded(s[j], lim));
    }
}

/// Two bounded command runs concatenate to a bounded run.
pub proof fn lemma_cmds_bounded_append(a: Seq<Command>, b: Seq<Command>)
    requires
        cmds_bounded(a),
        cmds_bounded(b),
    ensures
        cmds_bounded(a + b),
{
    assert forall|i: int| 0 <= i < (a + b).len() implies cmd_bounded(#[trigger] (a + b)[i]) by {
        if i < a.len() {
            assert((a + b)[i] == a[i]);
        } else {
            assert((a + b)[i] == b[i - a.len()]);
        }
    }
}

/// Despawn commands carry no coordinates, so they are always bounded.
pub proof fn lemma_despawn_cmds_bounded(s: Seq<Ship>)
    ensures
        cmds_bounded(despawn_cmds(s)),
{
    assert forall|i: int| 0 <= i < despawn_cmds(s).len() implies cmd_bounded(
        #[trigger] despawn_cmds(s)[i],
    ) by {
        assert(despawn_cmds(s)[i] == Command::Despawn { id: s[i].id });
    }
}

/// One bounded command keeps the queue bounded.
pub proof fn lemma_cmds_bounded_push(q: Seq<Command>, c: Command)
    requires
        cmds_bounded(q),
        cmd_bounded(c),
    ensures
        cmds_bounded(q.push(c)),
{
    assert forall|i: int| 0 <= i < q.push(c).len() implies cmd_bounded(#[trigger] q.push(c)[i]) by {
        if i < q.len() {
            assert(q.push(c)[i] == q[i]);
        } else {
            assert(q.push(c)[i] == c);
        }
    }
}

/// Projectiles after one frame of straight-line motion: each keeps its id
/// and x, and its y moves by `dv`, clamped into the coordinate arena.
pub open spec fn moved_lasers(s: Seq<Ship>, dv: int) -> Seq<Ship> {
    Seq::new(
        s.len(),
        |i: int| Ship { id: s[i].id, x: s[i].x, y: clamp_i(s[i].y as int + dv, POS_LIMIT as int) as i64 },
    )
}

/// Move every projectile of the roster by `dv` along y, clamped into the
/// coordinate arena.
pub fn shift_lasers(v: &mut Vec<Ship>, dv: i64)
    requires
        -2_000_000_000_000 <= dv <= 2_000_000_000_000,
        ships_bounded(old(v)@, POS_LIMIT as int),
    ensures
        final(v)@ == moved_lasers(old(v)@, dv as int),
        ships_bounded(final(v)@, POS_LIMIT as int),
{
    let n = v.len();
    let mut i: usize = 0;
    while i < n
        invariant
            i <= n,
            n == v@.len(),
            v@.len() == old(v)@.len(),
            -2_000_000_000_000 <= dv <= 2_000_000_000_000,
            ships_bounded(old(v)@, POS_LIMIT as int),
            forall|k: int| 0 <= k < i ==> v@[k] == moved_lasers(old(v)@, dv as int)[k],
            forall|k: int| i <= k < n ==> v@[k] == old(v)@[k],
        decreases n - i,
    {
        let mut s = v[i];
        s.y = crate::geom::clamp_to(s.y + dv, POS_LIMIT);
        v.set(i, s);
        i += 1;
    }
    proof {
        assert(v@ =~= moved_lasers(old(v)@, dv as int));
        assert forall|k: int| 0 <= k < v@.len() implies ship_bounded(#[trigger] v@[k], POS_LIMIT as int) by {
            assert(v@[k] == moved_lasers(old(v)@, dv as int)[k]);
        }
    }
}

/// Append a copy of each ship of `src` to `dst`, in order.
pub fn append_ships(dst: &mut Vec<Ship>, src: &Vec<Ship>)
    ensures
        final(dst)@ == old(dst)@ + src@,
{
    let mut i: usize = 0;
    proof {
        assert(old(dst)@ + src@.take(0) =~= old(dst)@);
    }
    while i < src.len()
        invariant
            i <= src@.len(),
            dst@ == old(dst)@ + src@.take(i as int),
        decreases src@.len() - i,
    {
        dst.push(src[i]);
        proof {
            assert(src@.take(i as int + 1) =~= src@.take(i as int).push(src@[i as int]));
            assert(old(dst)@ + src@.take(i as int + 1) =~= (old(dst)@ + src@.take(i as int)).push(
                src@[i as int],
            ));
        }
        i += 1;
    }
    proof {
        assert(src@.take(src@.len() as int) =~= src@);
    }
}

/// The effect of one buffered command on the entity store.
pub open spec fn apply_one_store(s: EntStore, c: Command) -> EntStore {
    match c {
        Command::Despawn { id } => EntStore {
            player: match s.player {
                Some(p) => if p.id == id {
                    None
                } else {
                    Some(p)
                },
                None => None,
            },
            enemies_level_1: remove_id(s.enemies_level_1, id),
            enemies_level_2: remove_id(s.enemies_level_2, id),
            enemies_level_3: remove_id(s.enemies_level_3, id),
            player_lasers: remove_id(s.player_lasers, id),
            enemy_lasers: remove_id(s.enemy_lasers, id),
            ..s
        },
        Command::SpawnPlayer { id, x, y } => match s.player {
            Some(_) => s,
            None => EntStore {
                player: Some(Ship { id, x, y }),
                player_facing: Facing::Forward,
                ..s
            },
        },
        Command::SpawnPlayerLaser { id, x, y } => EntStore {
            player_lasers: s.player_lasers.push(Ship { id, x, y }),
            ..s
        },
        Command::SpawnEnemyLaser { id, x, y } => EntStore {
            enemy_lasers: s.enemy_lasers.push(Ship { id, x, y }),
            ..s
        },
        Command::SpawnOverlay { kind } => EntStore { overlays: s.overlays.push(kind), ..s },
        Command::ClearOverlays { kind } => EntStore {
            overlays: remove_kind(s.overlays, kind),
            ..s
        },
    }
}

/// The effect of a whole command queue, applied front to back.
pub open spec fn apply_all(s: EntStore, cmds: Seq<Command>) -> EntStore
    decreases cmds.len(),
{
    if cmds.len() == 0 {
        s
    } else {
        apply_all(apply_one_store(s, cmds.first()), cmds.drop_first())
    }
}

/// Appending one command to the queue appends its effect.
pub proof fn lemma_apply_all_snoc(s: EntStore, cmds: Seq<Command>, c: Command)
    ensures
        apply_all(s, cmds.push(c)) == apply_one_store(apply_all(s, cmds), c),
    decreases cmds.len(),
{
    if cmds.len() == 0 {
        assert(cmds.push(c).first() == c);
        assert(cmds.push(c).drop_first() =~= cmds);
        assert(apply_all(s, cmds.push(c)) == apply_all(apply_one_store(s, c), cmds));
        assert(apply_all(apply_one_store(s, c), cmds) == apply_one_store(s, c));
        assert(apply_all(s, cmds) == s);
    } else {
        assert(cmds.push(c).first() == cmds.first());
        assert(cmds.push(c).drop_first() =~= cmds.drop_first().push(c));
        let x = apply_one_store(s, cmds.first());
        assert(apply_all(s, cmds.push(c)) == apply_all(x, cmds.drop_first().push(c)));
        lemma_apply_all_snoc(x, cmds.drop_first(), c);
        assert(apply_all(s, cmds) == apply_all(x, cmds.drop_first()));
    }
}

/// One bounded command keeps the store well formed.
pub proof fn lemma_apply_one_wf(s: EntStore, c: Command)
    requires
        store_wf(s),
        cmd_bounded(c),
    ensures
        store_wf(apply_one_store(s, c)),
{
    match c {
        Command::Despawn { id } => {
            lemma_remove_id_props(s.enemies_level_1, id);
            lemma_remove_id_props(s.enemies_level_2, id);
            lemma_remove_id_props(s.enemies_level_3, id);
            lemma_remove_id_bounded(s.enemies_level_1, id, ARENA_LIMIT as int);
            lemma_remove_id_bounded(s.enemies_level_2, id, ARENA_LIMIT as int);
            lemma_remove_id_bounded(s.enemies_level_3, id, ARENA_LIMIT as int);
            lemma_remove_id_bounded(s.player_lasers, id, POS_LIMIT as int);
            lemma_remove_id_bounded(s.enemy_lasers, id, POS_LIMIT as int);
        },
        _ => {},
    }
}

/// A bounded queue keeps the store well formed.
pub proof fn lemma_apply_all_wf(s: EntStore, cmds: Seq<Command>)
    requires
        store_wf(s),
        cmds_bounded(cmds),
    ensures
        store_wf(apply_all(s, cmds)),
    decreases cmds.len(),
{
    if cmds.len() > 0 {
        assert(cmd_bounded(cmds[0]));
        lemma_apply_one_wf(s, cmds.first());
        assert forall|i: int| 0 <= i < cmds.drop_first().len() implies cmd_bounded(
            #[trigger] cmds.drop_first()[i],
        ) by {
            assert(cmds.drop_first()[i] == cmds[i + 1]);
        }
        lemma_apply_all_wf(apply_one_store(s, cmds.first()), cmds.drop_first());
    }
}

/// Applying commands never grows an enemy roster: no buffered command
/// spawns an enemy ship.
pub proof fn lemma_apply_all_enemy_len(s: EntStore, cmds: Seq<Command>)
    ensures
        apply_all(s, cmds).enemies_level_1.len() <= s.enemies_level_1.len(),
        apply_all(s, cmds).enemies_level_2.len() <= s.enemies_level_2.len(),
        apply_all(s, cmds).enemies_level_3.len() <= s.enemies_level_3.len(),
    decreases cmds.len(),
{
    if cmds.len() > 0 {
        match cmds.first() {
            Command::Despawn { id } => {
                lemma_remove_id_props(s.enemies_level_1, id);
                lemma_remove_id_props(s.enemies_level_2, id);
                lemma_remove_id_props(s.enemies_level_3, id);
            },
            _ => {},
        }
        lemma_apply_all_enemy_len(apply_one_store(s, cmds.first()), cmds.drop_first());
    }
}

/// Law: a command run that ends with a player respawn leaves a live
/// player, whether or not one was alive before it ran.
pub proof fn lemma_apply_ends_with_player_spawn(s: EntStore, cmds: Seq<Command>)
    requires
        cmds.len() > 0,
        cmds.last() matches Command::SpawnPlayer { .. },
    ensures
        apply_all(s, cmds).player is Some,
{
    assert(cmds =~= cmds.drop_last().push(cmds.last()));
    lemma_apply_all_snoc(s, cmds.drop_last(), cmds.last());
}

/// Law: a despawn already applied once has no further effect. Despawning
/// the same entity id twice in one tick is a safe no-op the second time.
pub proof fn lemma_despawn_twice_harmless(s: EntStore, id: u64)
    ensures
        apply_one_store(apply_one_store(s, Command::Despawn { id }), Command::Despawn { id })
            == apply_one_store(s, Command::Despawn { id }),
{
    lemma_remove_id_idempotent(s.enemies_level_1, id);
    lemma_remove_id_idempotent(s.enemies_level_2, id);
    lemma_remove_id_idempotent(s.enemies_level_3, id);
    lemma_remove_id_idempotent(s.player_lasers, id);
    lemma_remove_id_idempotent(s.enemy_lasers, id);
}

/// Law: despawning an id that no live entity carries leaves the store
/// unchanged.
pub proof fn lemma_despawn_absent_harmless(s: EntStore, id: u64)
    requires
        !has_id(s.enemies_level_1, id),
        !has_id(s.enemies_level_2, id),
        !has_id(s.enemies_level_3, id),
        !has_id(s.player_lasers, id),
        !has_id(s.enemy_lasers, id),
        match s.player {
            Some(p) => p.id != id,
            None => true,
        },
    ensures
        apply_one_store(s, Command::Despawn { id }) == s,
{
    lemma_remove_id_absent(s.enemies_level_1, id);
    lemma_remove_id_absent(s.enemies_level_2, id);
    lemma_remove_id_absent(s.enemies_level_3, id);
    lemma_remove_id_absent(s.player_lasers, id);
    lemma_remove_id_absent(s.enemy_lasers, id);
}

/// Remove every ship of this id from the roster; a no-op if none has it.
pub fn despawn_ship(v: &mut Vec<Ship>, id: u64)
    ensures
        final(v)@ == remove_id(old(v)@, id),
{
    let mut out: Vec<Ship> = Vec::new();
    let mut i: usize = 0;
    proof {
        assert(v@.take(0) =~= Seq::<Ship>::empty());
    }
    while i < v.len()
        invariant
            i <= v@.len(),
            v@ == old(v)@,
            out@ == remove_id(v@.take(i as int), id),
        decreases v@.len() - i,
    {
        let e = v[i];
        if e.id != id {
            out.push(e);
        }
        proof {
            assert(v@.take(i as int + 1) =~= v@.take(i as int).push(e));
            lemma_remove_id_snoc(v@.take(i as int), e, id);
        }
        i += 1;
    }
    proof {
        assert(v@.take(v@.len() as int) =~= v@);
    }
    *v = out;
}

/// Remove every banner of this kind from the overlay list.
pub fn clear_overlays_of(v: &mut Vec<OverlayKind>, kind: OverlayKind)
    ensures
        final(v)@ == remove_kind(old(v)@, kind),
{
    let mut out: Vec<OverlayKind> = Vec::new();
    let mut i: usize = 0;
    proof {
        assert(v@.take(0) =~= Seq::<OverlayKind>::empty());
    }
    while i < v.len()
        invariant
            i <= v@.len(),
            v@ == old(v)@,
            out@ == remove_kind(v@.take(i as int), kind),
        decreases v@.len() - i,
    {
        let e = v[i];
        if e != kind {
            out.push(e);
        }
        proof {
            assert(v@.take(i as int + 1) =~= v@.take(i as int).push(e));
            lemma_remove_kind_snoc(v@.take(i as int), e, kind);
        }
        i += 1;
    }
    proof {
        assert(v@.take(v@.len() as int) =~= v@);
    }
    *v = out;
}

/// Buffer one despawn command for every ship of the roster, in order.
pub fn push_despawns(q: &mut Vec<Command>, ships: &Vec<Ship>)
    ensures
        final(q)@ == old(q)@ + despawn_cmds(ships@),
{
    let mut i: usize = 0;
    proof {
        assert(old(q)@ + despawn_cmds(ships@.take(0)) =~= old(q)@);
    }
    while i < ships.len()
        invariant
            i <= ships@.len(),
            q@ == old(q)@ + despawn_cmds(ships@.take(i as int)),
        decreases ships@.len() - i,
    {
        let e = ships[i];
        q.push(Command::Despawn { id: e.id });
        proof {
            assert(ships@.take(i as int + 1) =~= ships@.take(i as int).push(e));
            assert(despawn_cmds(ships@.take(i as int + 1)) =~= despawn_cmds(
                ships@.take(i as int),
            ).push(Command::Despawn { id: e.id }));
            assert(old(q)@ + despawn_cmds(ships@.take(i as int + 1)) =~= (old(q)@ + despawn_cmds(
                ships@.take(i as int),
            )).push(Command::Despawn { id: e.id }));
        }
        i += 1;
    }
    proof {
        assert(ships@.take(ships@.len() as int) =~= ships@);
    }
}

/// Apply one command to the live entity store.
fn apply_one(w: &mut World, c: Command)
    ensures
        final(w).store() == apply_one_store(old(w).store(), c),
        final(w).state == old(w).state,
        final(w).level == old(w).level,
        final(w).pending_state == old(w).pending_state,
        final(w).pending_level == old(w).pending_level,
        final(w).spawned == old(w).spawned,
        final(w).fire_timer_ms == old(w).fire_timer_ms,
        final(w).next_id == old(w).next_id,
        final(w).queue@ == old(w).queue@,
        final(w).cues@ == old(w).cues@,
        final(w).gameplay_visible == old(w).gameplay_visible,
{
    match c {
        Command::Despawn { id } => {
            match w.player {
                Some(p) => if p.id == id {
                    w.player = None;
                },
                None => {},
            }
            despawn_ship(&mut w.enemies_level_1, id);
            despawn_ship(&mut w.enemies_level_2, id);
            despawn_ship(&mut w.enemies_level_3, id);
            despawn_ship(&mut w.player_lasers, id);
            despawn_ship(&mut w.enemy_lasers, id);
        },
        Command::SpawnPlayer { id, x, y } => {
            if w.player.is_none() {
                w.player = Some(Ship { id, x, y });
                w.player_facing = Facing::Forward;
            }
        },
        Command::SpawnPlayerLaser { id, x, y } => {
            w.player_lasers.push(Ship { id, x, y });
        },
        Command::SpawnEnemyLaser { id, x, y } => {
            w.enemy_lasers.push(Ship { id, x, y });
        },
        Command::SpawnOverlay { kind } => {
            w.overlays.push(kind);
        },
        Command::ClearOverlays { kind } => {
            clear_overlays_of(&mut w.overlays, kind);
        },
    }
}

/// The application point: run every buffered structural change, front to
/// back, then leave the queue empty. Despawns are tolerant throughout.
pub fn apply_commands(w: &mut World)
    requires
        wf(*old(w)),
    ensures
        wf(*final(w)),
        final(w).store() == apply_all(old(w).store(), old(w).queue@),
        final(w).queue@.len() == 0,
        final(w).state == old(w).state,
        final(w).level == old(w).level,
        final(w).pending_state == old(w).pending_state,
        final(w).pending_level == old(w).pending_level,
        final(w).spawned == old(w).spawned,
        final(w).fire_timer_ms == old(w).fire_timer_ms,
        final(w).next_id == old(w).next_id,
        final(w).cues@ == old(w).cues@,
        final(w).gameplay_visible == old(w).gameplay_visible,
{
    let n = w.queue.len();
    let mut i: usize = 0;
    proof {
        assert(old(w).queue@.take(0) =~= Seq::<Command>::empty());
    }
    while i < n
        invariant
            i <= n,
            n == w.queue@.len(),
            w.queue@ == old(w).queue@,
            w.store() == apply_all(old(w).store(), old(w).queue@.take(i as int)),
            w.state == old(w).state,
            w.level == old(w).level,
            w.pending_state == old(w).pending_state,
            w.pending_level == old(w).pending_level,
            w.spawned == old(w).spawned,
            w.fire_timer_ms == old(w).fire_timer_ms,
            w.next_id == old(w).next_id,
            w.cues@ == old(w).cues@,
            w.gameplay_visible == old(w).gameplay_visible,
        decreases n - i,
    {
        let c = w.queue[i];
        apply_one(w, c);
        proof {
            assert(old(w).queue@.take(i as int + 1) =~= old(w).queue@.take(i as int).push(c));
            lemma_apply_all_snoc(old(w).store(), old(w).queue@.take(i as int), c);
        }
        i += 1;
    }
    proof {
        assert(old(w).queue@.take(n as int) =~= old(w).queue@);
        lemma_apply_all_wf(old(w).store(), old(w).queue@);
        lemma_apply_all_enemy_len(old(w).store(), old(w).queue@);
    }
    w.queue = Vec::new();
}

} // verus!
