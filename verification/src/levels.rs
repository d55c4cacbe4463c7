//! The three enemy waves: roster loading and unloading, level-complete
//! checks, and the pairwise separation solver that keeps ships apart.

use vstd::prelude::*;

use rand::Rng;

use crate::game::GameState;
use crate::geom::{abs_i, clamp_i, clamp_to, isqrt, lemma_sqrt_floor_exists, sqrt_floor};
use crate::world::{
    same_cues, same_flags, same_modes, same_pending, same_queue, same_vis, ships_bounded, wf,
    world_unchanged, EntStore, Ship, World, ARENA_LIMIT, MAX_ROSTER,
};

verus! {

/// Which of the three enemy waves is active while the game runs.
#[derive(Clone, Copy, PartialEq, Eq, Structural, Debug)]
pub enum LevelState {
    Level1,
    Level2,
    Level3,
}

/// Relies on `rand::Rng::gen_range` over a half-open `i64` range, drawn
/// from the thread-local generator: the result lies in the range. The
/// range must not be empty, since `gen_range` panics on one.
#[verifier::external_body]
fn random_in_range(lo: i64, hi: i64) -> (r: i64)
    requires
        lo < hi,
    ensures
        lo <= r < hi,
{
    rand::thread_rng().gen_range(lo..hi)
}

/// Append `count` ships at uniformly random positions: x in
/// [-380, 380) units, y in [y_lo, 250) units, with consecutive ids.
fn spawn_wave(roster: &mut Vec<Ship>, next_id: &mut u64, count: usize, y_lo: i64)
    requires
        *old(next_id) + count <= u64::MAX,
        0 <= y_lo < 250_000,
    ensures
        final(roster)@.len() == old(roster)@.len() + count,
        forall|i: int| 0 <= i < old(roster)@.len() ==> final(roster)@[i] == old(roster)@[i],
        forall|i: int|
            old(roster)@.len() <= i < final(roster)@.len()
                ==> -380_000 <= (#[trigger] final(roster)@[i]).x < 380_000
                && y_lo <= final(roster)@[i].y < 250_000
                && final(roster)@[i].id == *old(next_id) + (i - old(roster)@.len()),
        *final(next_id) == *old(next_id) + count,
{
    let mut k: usize = 0;
    while k < count
        invariant
            k <= count,
            *old(next_id) + count <= u64::MAX,
            0 <= y_lo < 250_000,
            roster@.len() == old(roster)@.len() + k,
            *next_id == *old(next_id) + k,
            forall|i: int| 0 <= i < old(roster)@.len() ==> roster@[i] == old(roster)@[i],
            forall|i: int|
                old(roster)@.len() <= i < roster@.len() ==> -380_000 <= (#[trigger] roster@[i]).x
                    < 380_000 && y_lo <= roster@[i].y < 250_000 && roster@[i].id == *old(next_id) + (
                i - old(roster)@.len()),
        decreases count - k,
    {
        let x = random_in_range(-380_000, 380_000);
        let y = random_in_range(y_lo, 250_000);
        roster.push(Ship { id: *next_id, x, y });
        *next_id = *next_id + 1;
        k += 1;
    }
}

/// Create the seven ships of wave one, y in [100, 250) units, then mark
/// the roster as fully spawned.
pub fn load_level_1(w: &mut World)
    requires
        wf(*old(w)),
        old(w).level == LevelState::Level1,
        old(w).next_id <= u64::MAX - 7,
        old(w).enemies_level_1@.len() + 7 <= MAX_ROSTER,
    ensures
        wf(*final(w)),
        final(w).enemies_level_1@.len() == old(w).enemies_level_1@.len() + 7,
        forall|i: int|
            0 <= i < old(w).enemies_level_1@.len()
                ==> final(w).enemies_level_1@[i] == old(w).enemies_level_1@[i],
        forall|i: int|
            old(w).enemies_level_1@.len() <= i < final(w).enemies_level_1@.len()
                ==> -380_000 <= (#[trigger] final(w).enemies_level_1@[i]).x < 380_000
                && 100_000 <= final(w).enemies_level_1@[i].y < 250_000
                && final(w).enemies_level_1@[i].id == old(w).next_id + (i - old(w).enemies_level_1@.len()),
        final(w).next_id == old(w).next_id + 7,
        final(w).spawned == true,
        final(w).player == old(w).player,
        final(w).player_facing == old(w).player_facing,
        final(w).enemies_level_2@ == old(w).enemies_level_2@,
        final(w).enemies_level_3@ == old(w).enemies_level_3@,
        final(w).player_lasers@ == old(w).player_lasers@,
        final(w).enemy_lasers@ == old(w).enemy_lasers@,
        final(w).overlays@ == old(w).overlays@,
        final(w).fire_timer_ms == old(w).fire_timer_ms,
        same_modes(*old(w), *final(w)),
        same_pending(*old(w), *final(w)),
        same_queue(*old(w), *final(w)),
        same_cues(*old(w), *final(w)),
        same_vis(*old(w), *final(w)),
{
    spawn_wave(&mut w.enemies_level_1, &mut w.next_id, 7, 100_000);
    w.spawned = true;
}

/// Create the fifteen ships of wave two, y in [50, 250) units, then mark
/// the roster as fully spawned.
pub fn load_level_2(w: &mut World)
    requires
        wf(*old(w)),
        old(w).level == LevelState::Level2,
        old(w).next_id <= u64::MAX - 15,
        old(w).enemies_level_2@.len() + 15 <= MAX_ROSTER,
    ensures
        wf(*final(w)),
        final(w).enemies_level_2@.len() == old(w).enemies_level_2@.len() + 15,
        forall|i: int|
            0 <= i < old(w).enemies_level_2@.len()
                ==> final(w).enemies_level_2@[i] == old(w).enemies_level_2@[i],
        forall|i: int|
            old(w).enemies_level_2@.len() <= i < final(w).enemies_level_2@.len()
                ==> -380_000 <= (#[trigger] final(w).enemies_level_2@[i]).x < 380_000
                && 50_000 <= final(w).enemies_level_2@[i].y < 250_000
                && final(w).enemies_level_2@[i].id == old(w).next_id + (i - old(w).enemies_level_2@.len()),
        final(w).next_id == old(w).next_id + 15,
        final(w).spawned == true,
        final(w).player == old(w).player,
        final(w).player_facing == old(w).player_facing,
        final(w).enemies_level_1@ == old(w).enemies_level_1@,
        final(w).enemies_level_3@ == old(w).enemies_level_3@,
        final(w).player_lasers@ == old(w).player_lasers@,
        final(w).enemy_lasers@ == old(w).enemy_lasers@,
        final(w).overlays@ == old(w).overlays@,
        final(w).fire_timer_ms == old(w).fire_timer_ms,
        same_modes(*old(w), *final(w)),
        same_pending(*old(w), *final(w)),
        same_queue(*old(w), *final(w)),
        same_cues(*old(w), *final(w)),
        same_vis(*old(w), *final(w)),
{
    spawn_wave(&mut w.enemies_level_2, &mut w.next_id, 15, 50_000);
    w.spawned = true;
}

/// Create the twenty-five ships of wave three, y in [0, 250) units, then
/// mark the roster as fully spawned.
pub fn load_level_3(w: &mut World)
    requires
        wf(*old(w)),
        old(w).level == LevelState::Level3,
        old(w).next_id <= u64::MAX - 25,
        old(w).enemies_level_3@.len() + 25 <= MAX_ROSTER,
    ensures
        wf(*final(w)),
        final(w).enemies_level_3@.len() == old(w).enemies_level_3@.len() + 25,
        forall|i: int|
            0 <= i < old(w).enemies_level_3@.len()
                ==> final(w).enemies_level_3@[i] == old(w).enemies_level_3@[i],
        forall|i: int|
            old(w).enemies_level_3@.len() <= i < final(w).enemies_level_3@.len()
                ==> -380_000 <= (#[trigger] final(w).enemies_level_3@[i]).x < 380_000
                && 0 <= final(w).enemies_level_3@[i].y < 250_000
                && final(w).enemies_level_3@[i].id == old(w).next_id + (i - old(w).enemies_level_3@.len()),
        final(w).next_id == old(w).next_id + 25,
        final(w).spawned == true,
        final(w).player == old(w).player,
        final(w).player_facing == old(w).player_facing,
        final(w).enemies_level_1@ == old(w).enemies_level_1@,
        final(w).enemies_level_2@ == old(w).enemies_level_2@,
        final(w).player_lasers@ == old(w).player_lasers@,
        final(w).enemy_lasers@ == old(w).enemy_lasers@,
        final(w).overlays@ == old(w).overlays@,
        final(w).fire_timer_ms == old(w).fire_timer_ms,
        same_modes(*old(w), *final(w)),
        same_pending(*old(w), *final(w)),
        same_queue(*old(w), *final(w)),
        same_cues(*old(w), *final(w)),
        same_vis(*old(w), *final(w)),
{
    spawn_wave(&mut w.enemies_level_3, &mut w.next_id, 25, 0);
    w.spawned = true;
}

/// Destroy every surviving ship of wave one and clear the spawned flag.
pub fn unload_level_1(w: &mut World)
    requires
        wf(*old(w)),
    ensures
        wf(*final(w)),
        final(w).store() == (EntStore { enemies_level_1: Seq::empty(), ..old(w).store() }),
        final(w).spawned == false,
        final(w).fire_timer_ms == old(w).fire_timer_ms,
        final(w).next_id == old(w).next_id,
        same_modes(*old(w), *final(w)),
        same_pending(*old(w), *final(w)),
        same_queue(*old(w), *final(w)),
        same_cues(*old(w), *final(w)),
        same_vis(*old(w), *final(w)),
{
    w.enemies_level_1 = Vec::new();
    w.spawned = false;
}

/// Destroy every surviving ship of wave two and clear the spawned flag.
pub fn unload_level_2(w: &mut World)
    requires
        wf(*old(w)),
    ensures
        wf(*final(w)),
        final(w).store() == (EntStore { enemies_level_2: Seq::empty(), ..old(w).store() }),
        final(w).spawned == false,
        final(w).fire_timer_ms == old(w).fire_timer_ms,
        final(w).next_id == old(w).next_id,
        same_modes(*old(w), *final(w)),
        same_pending(*old(w), *final(w)),
        same_queue(*old(w), *final(w)),
        same_cues(*old(w), *final(w)),
        same_vis(*old(w), *final(w)),
{
    w.enemies_level_2 = Vec::new();
    w.spawned = false;
}

/// Destroy every surviving ship of wave three and clear the spawned flag.
pub fn unload_level_3(w: &mut World)
    requires
        wf(*old(w)),
    ensures
        wf(*final(w)),
        final(w).store() == (EntStore { enemies_level_3: Seq::empty(), ..old(w).store() }),
        final(w).spawned == false,
        final(w).fire_timer_ms == old(w).fire_timer_ms,
        final(w).next_id == old(w).next_id,
        same_modes(*old(w), *final(w)),
        same_pending(*old(w), *final(w)),
        same_queue(*old(w), *final(w)),
        same_cues(*old(w), *final(w)),
        same_vis(*old(w), *final(w)),
{
    w.enemies_level_3 = Vec::new();
    w.spawned = false;
}

/// While playing level one with a fully created and now empty roster,
/// advance to level two.
pub fn check_level_1_complete(w: &mut World)
    requires
        wf(*old(w)),
    ensures
        wf(*final(w)),
        old(w).state == GameState::InGame && old(w).level == LevelState::Level1 && old(w).spawned
            && old(w).enemies_level_1@.len() == 0 ==> final(w).pending_level == Some(
            LevelState::Level2,
        ) && final(w).pending_state == old(w).pending_state,
        !(old(w).state == GameState::InGame && old(w).level == LevelState::Level1 && old(w).spawned
            && old(w).enemies_level_1@.len() == 0) ==> same_pending(*old(w), *final(w)),
        crate::world::same_store(*old(w), *final(w)),
        same_modes(*old(w), *final(w)),
        same_flags(*old(w), *final(w)),
        same_queue(*old(w), *final(w)),
        same_cues(*old(w), *final(w)),
        same_vis(*old(w), *final(w)),
{
    if w.state == GameState::InGame && w.level == LevelState::Level1 && w.spawned
        && w.enemies_level_1.len() == 0 {
        w.pending_level = Some(LevelState::Level2);
    }
}

/// While playing level two with a fully created and now empty roster,
/// advance to level three.
pub fn check_level_2_complete(w: &mut World)
    requires
        wf(*old(w)),
    ensures
        wf(*final(w)),
        old(w).state == GameState::InGame && old(w).level == LevelState::Level2 && old(w).spawned
            && old(w).enemies_level_2@.len() == 0 ==> final(w).pending_level == Some(
            LevelState::Level3,
        ) && final(w).pending_state == old(w).pending_state,
        !(old(w).state == GameState::InGame && old(w).level == LevelState::Level2 && old(w).spawned
            && old(w).enemies_level_2@.len() == 0) ==> same_pending(*old(w), *final(w)),
        crate::world::same_store(*old(w), *final(w)),
        same_modes(*old(w), *final(w)),
        same_flags(*old(w), *final(w)),
        same_queue(*old(w), *final(w)),
        same_cues(*old(w), *final(w)),
        same_vis(*old(w), *final(w)),
{
    if w.state == GameState::InGame && w.level == LevelState::Level2 && w.spawned
        && w.enemies_level_2.len() == 0 {
        w.pending_level = Some(LevelState::Level3);
    }
}

/// The signed push along one axis: `(min - d) * |delta| / d`, carrying
/// the sign of `delta`.
pub open spec fn push_of(min: int, d: int, delta: int) -> int {
    let m = (min - d) * abs_i(delta) / d;
    if delta >= 0 {
        m
    } else {
        -m
    }
}

/// One pair correction of the separation solver: if the distance floor
/// between the ship at `(sx, sy)` and the one at `(qx, qy)` is strictly
/// between zero and `min`, push the first ship away along the separation
/// vector by `min` minus the distance, clamped into the enemy arena.
/// Exactly overlapping pairs are skipped.
pub open spec fn pair_adjusted(sx: int, sy: int, qx: int, qy: int, min: int) -> (int, int) {
    let dx = sx - qx;
    let dy = sy - qy;
    let d = sqrt_floor(dx * dx + dy * dy);
    if 0 < d && d < min {
        (
            clamp_i(sx + push_of(min, d, dx), ARENA_LIMIT as int),
            clamp_i(sy + push_of(min, d, dy), ARENA_LIMIT as int),
        )
    } else {
        (sx, sy)
    }
}

/// A ship's position after being corrected, in order, against every
/// snapshot ship from index `j` on, skipping its own snapshot entry at
/// index `me`: a ship is never pushed away from itself.
pub open spec fn adjusted_from(
    sx: int,
    sy: int,
    me: int,
    snap: Seq<Ship>,
    min: int,
    j: int,
) -> (int, int)
    decreases snap.len() - j,
{
    if j < 0 || j >= snap.len() {
        (sx, sy)
    } else {
        let q = snap[j];
        let n = if j == me {
            (sx, sy)
        } else {
            pair_adjusted(sx, sy, q.x as int, q.y as int, min)
        };
        adjusted_from(n.0, n.1, me, snap, min, j + 1)
    }
}

/// One whole relaxation pass: every ship is corrected against the frame's
/// snapshot of all ships, each starting from its own snapshot position.
pub open spec fn separated(snap: Seq<Ship>, min: int) -> Seq<Ship> {
    Seq::new(
        snap.len(),
        |i: int|
            {
                let r = adjusted_from(snap[i].x as int, snap[i].y as int, i, snap, min, 0);
                Ship { id: snap[i].id, x: r.0 as i64, y: r.1 as i64 }
            },
    )
}

/// Copy a roster, for the per-frame snapshot.
fn copy_ships(v: &Vec<Ship>) -> (r: Vec<Ship>)
    ensures
        r@ == v@,
{
    let mut out: Vec<Ship> = Vec::new();
    let mut i: usize = 0;
    while i < v.len()
        invariant
            i <= v@.len(),
            out@ == v@.take(i as int),
        decreases v@.len() - i,
    {
        out.push(v[i]);
        proof {
            assert(v@.take(i as int + 1) =~= v@.take(i as int).push(v@[i as int]));
        }
        i += 1;
    }
    proof {
        assert(v@.take(v@.len() as int) =~= v@);
    }
    out
}

/// Run one separation pass over a roster with the given minimum spacing.
fn separate_ships(ships: &mut Vec<Ship>, min: i64)
    requires
        0 < min <= 100_000,
        ships_bounded(old(ships)@, ARENA_LIMIT as int),
    ensures
        final(ships)@ == separated(old(ships)@, min as int),
        ships_bounded(final(ships)@, ARENA_LIMIT as int),
{
    let snap = copy_ships(ships);
    let n = ships.len();
    let mut i: usize = 0;
    while i < n
        invariant
            i <= n,
            n == ships@.len(),
            snap@ == old(ships)@,
            ships@.len() == old(ships)@.len(),
            0 < min <= 100_000,
            ships_bounded(old(ships)@, ARENA_LIMIT as int),
            ships_bounded(ships@, ARENA_LIMIT as int),
            forall|k: int| 0 <= k < i ==> ships@[k] == separated(old(ships)@, min as int)[k],
            forall|k: int| i <= k < n ==> ships@[k] == old(ships)@[k],
        decreases n - i,
    {
        let mut s = ships[i];
        let ghost sx0 = s.x as int;
        let ghost sy0 = s.y as int;
        let ghost me = i as int;
        let ghost sid = s.id;
        let mut j: usize = 0;
        while j < n
            invariant
                j <= n,
                n == snap@.len(),
                0 < min <= 100_000,
                ships_bounded(snap@, ARENA_LIMIT as int),
                -ARENA_LIMIT <= s.x <= ARENA_LIMIT,
                -ARENA_LIMIT <= s.y <= ARENA_LIMIT,
                s.id == sid,
                me == i as int,
                adjusted_from(sx0, sy0, me, snap@, min as int, 0) == adjusted_from(
                    s.x as int,
                    s.y as int,
                    me,
                    snap@,
                    min as int,
                    j as int,
                ),
            decreases n - j,
        {
            let q = snap[j];
            let ghost pre_x = s.x as int;
            let ghost pre_y = s.y as int;
            if j != i {
                let dx = s.x - q.x;
                let dy = s.y - q.y;
                proof {
                    assert(dx * dx >= 0 && dx * dx <= 4_000_000_000_000_000_000) by (nonlinear_arith)
                        requires
                            -2_000_000_000 <= dx <= 2_000_000_000,
                    ;
                    assert(dy * dy >= 0 && dy * dy <= 4_000_000_000_000_000_000) by (nonlinear_arith)
                        requires
                            -2_000_000_000 <= dy <= 2_000_000_000,
                    ;
                }
                let d2 = dx * dx + dy * dy;
                let d = isqrt(d2);
                if 0 < d && d < min {
                    let adx = if dx >= 0 {
                        dx
                    } else {
                        -dx
                    };
                    let ady = if dy >= 0 {
                        dy
                    } else {
                        -dy
                    };
                    proof {
                        assert((min - d) * adx >= 0 && (min - d) * adx <= 100_000 * 4_000_000_000)
                            by (nonlinear_arith)
                            requires
                                0 < d < min <= 100_000,
                                0 <= adx <= 4_000_000_000,
                        ;
                        assert((min - d) * ady >= 0 && (min - d) * ady <= 100_000 * 4_000_000_000)
                            by (nonlinear_arith)
                            requires
                                0 < d < min <= 100_000,
                                0 <= ady <= 4_000_000_000,
                        ;
                        vstd::arithmetic::div_mod::lemma_div_nonincreasing(
                            (min - d) * (adx as int),
                            d as int,
                        );
                        vstd::arithmetic::div_mod::lemma_div_nonincreasing(
                            (min - d) * (ady as int),
                            d as int,
                        );
                        vstd::arithmetic::div_mod::lemma_div_pos_is_pos(
                            (min - d) * (adx as int),
                            d as int,
                        );
                        vstd::arithmetic::div_mod::lemma_div_pos_is_pos(
                            (min - d) * (ady as int),
                            d as int,
                        );
                    }
                    let mx = (((min - d) as u64 * (adx as u64)) / (d as u64)) as i64;
                    let my = (((min - d) as u64 * (ady as u64)) / (d as u64)) as i64;
                    let px = if dx >= 0 {
                        mx
                    } else {
                        -mx
                    };
                    let py = if dy >= 0 {
                        my
                    } else {
                        -my
                    };
                    s.x = clamp_to(s.x + px, ARENA_LIMIT);
                    s.y = clamp_to(s.y + py, ARENA_LIMIT);
                    proof {
                        assert(mx as int == (min - d) * abs_i(dx as int) / (d as int));
                        assert(my as int == (min - d) * abs_i(dy as int) / (d as int));
                        assert(px as int == push_of(min as int, d as int, dx as int));
                        assert(py as int == push_of(min as int, d as int, dy as int));
                        assert((s.x as int, s.y as int) == pair_adjusted(
                            pre_x,
                            pre_y,
                            q.x as int,
                            q.y as int,
                            min as int,
                        ));
                    }
                } else {
                    proof {
                        assert((s.x as int, s.y as int) == pair_adjusted(
                            pre_x,
                            pre_y,
                            q.x as int,
                            q.y as int,
                            min as int,
                        ));
                    }
                }
            }
            proof {
                assert(adjusted_from(pre_x, pre_y, me, snap@, min as int, j as int)
                    == adjusted_from(s.x as int, s.y as int, me, snap@, min as int, j as int + 1));
            }
            j += 1;
        }
        ships.set(i, s);
        proof {
            assert(adjusted_from(s.x as int, s.y as int, me, snap@, min as int, n as int) == (
                s.x as int,
                s.y as int,
            ));
            assert(adjusted_from(sx0, sy0, me, snap@, min as int, 0) == (s.x as int, s.y as int));
            assert(ships@[i as int] == separated(old(ships)@, min as int)[i as int]);
        }
        i += 1;
    }
    proof {
        assert(ships@ =~= separated(old(ships)@, min as int));
    }
}

/// Each frame, push apart the ships of wave one that sit closer than
/// 100 units, one relaxation pass per frame.
pub fn distance_between_enemies_in_level_1(w: &mut World)
    requires
        wf(*old(w)),
    ensures
        wf(*final(w)),
        old(w).state == GameState::InGame && old(w).level == LevelState::Level1 ==> final(w).store()
            == (EntStore {
            enemies_level_1: separated(old(w).enemies_level_1@, 100_000),
            ..old(w).store()
        }),
        !(old(w).state == GameState::InGame && old(w).level == LevelState::Level1)
            ==> world_unchanged(*old(w), *final(w)),
        final(w).next_id == old(w).next_id,
        same_modes(*old(w), *final(w)),
        same_pending(*old(w), *final(w)),
        same_flags(*old(w), *final(w)),
        same_queue(*old(w), *final(w)),
        same_cues(*old(w), *final(w)),
        same_vis(*old(w), *final(w)),
{
    if w.state == GameState::InGame && w.level == LevelState::Level1 {
        separate_ships(&mut w.enemies_level_1, 100_000);
    }
}

/// Each frame, push apart the ships of wave two that sit closer than
/// 80 units, one relaxation pass per frame.
pub fn distance_between_enemies_in_level_2(w: &mut World)
    requires
        wf(*old(w)),
    ensures
        wf(*final(w)),
        old(w).state == GameState::InGame && old(w).level == LevelState::Level2 ==> final(w).store()
            == (EntStore {
            enemies_level_2: separated(old(w).enemies_level_2@, 80_000),
            ..old(w).store()
        }),
        !(old(w).state == GameState::InGame && old(w).level == LevelState::Level2)
            ==> world_unchanged(*old(w), *final(w)),
        final(w).next_id == old(w).next_id,
        same_modes(*old(w), *final(w)),
        same_pending(*old(w), *final(w)),
        same_flags(*old(w), *final(w)),
        same_queue(*old(w), *final(w)),
        same_cues(*old(w), *final(w)),
        same_vis(*old(w), *final(w)),
{
    if w.state == GameState::InGame && w.level == LevelState::Level2 {
        separate_ships(&mut w.enemies_level_2, 80_000);
    }
}

/// Each frame, push apart the ships of wave three that sit closer than
/// 60 units, one relaxation pass per frame.
pub fn distance_between_enemies_in_level_3(w: &mut World)
    requires
        wf(*old(w)),
    ensures
        wf(*final(w)),
        old(w).state == GameState::InGame && old(w).level == LevelState::Level3 ==> final(w).store()
            == (EntStore {
            enemies_level_3: separated(old(w).enemies_level_3@, 60_000),
            ..old(w).store()
        }),
        !(old(w).state == GameState::InGame && old(w).level == LevelState::Level3)
            ==> world_unchanged(*old(w), *final(w)),
        final(w).next_id == old(w).next_id,
        same_modes(*old(w), *final(w)),
        same_pending(*old(w), *final(w)),
        same_flags(*old(w), *final(w)),
        same_queue(*old(w), *final(w)),
        same_cues(*old(w), *final(w)),
        same_vis(*old(w), *final(w)),
{
    if w.state == GameState::InGame && w.level == LevelState::Level3 {
        separate_ships(&mut w.enemies_level_3, 60_000);
    }
}

/// Law: a pair correction never creates an exact overlap. A pair already
/// at distance zero is skipped, not corrected; and a ship genuinely
/// pushed away from another never lands exactly on that other ship's
/// snapshot position. Both positions must leave `min` units of room to
/// the arena edge, so the clamp cannot interfere.
pub proof fn lemma_pair_adjusted_never_collapses(sx: int, sy: int, qx: int, qy: int, min: int)
    requires
        0 < min,
        abs_i(sx) + min <= ARENA_LIMIT as int,
        abs_i(sy) + min <= ARENA_LIMIT as int,
    ensures
        sx == qx && sy == qy ==> pair_adjusted(sx, sy, qx, qy, min) == (sx, sy),
        !(sx == qx && sy == qy) ==> pair_adjusted(sx, sy, qx, qy, min) != (qx, qy),
{
    let dx = sx - qx;
    let dy = sy - qy;
    let d2 = dx * dx + dy * dy;
    if sx == qx && sy == qy {
        lemma_sqrt_floor_exists(0);
        let r = sqrt_floor(0);
        assert(r == 0) by (nonlinear_arith)
            requires
                r >= 0,
                r * r <= 0,
        ;
    } else {
        assert(d2 >= 1) by (nonlinear_arith)
            requires
                d2 == dx * dx + dy * dy,
                dx != 0 || dy != 0,
        ;
        lemma_sqrt_floor_exists(d2);
        let d = sqrt_floor(d2);
        assert(d >= 1) by (nonlinear_arith)
            requires
                d >= 0,
                d2 >= 1,
                d2 < (d + 1) * (d + 1),
        ;
        if d < min {
            assert(dx <= d && -dx <= d && dy <= d && -dy <= d) by (nonlinear_arith)
                requires
                    d2 == dx * dx + dy * dy,
                    d2 < (d + 1) * (d + 1),
                    d >= 0,
            ;
            assert(abs_i(dx) <= d);
            assert(abs_i(dy) <= d);
            lemma_push_bounded(min, d, dx);
            lemma_push_bounded(min, d, dy);
            let px = push_of(min, d, dx);
            let py = push_of(min, d, dy);
            let nx = clamp_i(sx + px, ARENA_LIMIT as int);
            let ny = clamp_i(sy + py, ARENA_LIMIT as int);
            assert(nx == sx + px && ny == sy + py);
            if dx > 0 {
                lemma_push_sign(min, d, dx);
                assert(nx > qx);
            } else if dx < 0 {
                lemma_push_sign(min, d, dx);
                assert(nx < qx);
            } else {
                assert((min - d) * abs_i(dx) == 0) by (nonlinear_arith)
                    requires
                        abs_i(dx) == 0,
                ;
                vstd::arithmetic::div_mod::lemma_div_of0(d);
                assert(px == 0);
                lemma_push_sign(min, d, dy);
                if dy > 0 {
                    assert(ny > qy);
                } else {
                    assert(ny < qy);
                }
            }
        }
    }
}

/// The push along one axis never exceeds `min - d` in magnitude, since
/// the axis gap `|delta|` is at most the distance floor `d`.
proof fn lemma_push_bounded(min: int, d: int, delta: int)
    requires
        0 < d < min,
        abs_i(delta) <= d,
    ensures
        abs_i(push_of(min, d, delta)) <= min - d,
{
    let ad = abs_i(delta);
    let a = (min - d) * ad;
    assert(a <= (min - d) * d) by (nonlinear_arith)
        requires
            a == (min - d) * ad,
            ad <= d,
            min - d > 0,
    ;
    assert(a >= 0) by (nonlinear_arith)
        requires
            a == (min - d) * ad,
            ad >= 0,
            min - d > 0,
    ;
    vstd::arithmetic::div_mod::lemma_div_is_ordered(a, (min - d) * d, d);
    vstd::arithmetic::div_mod::lemma_div_pos_is_pos(a, d);
    assert((min - d) * d / d == min - d) by {
        vstd::arithmetic::div_mod::lemma_div_multiples_vanish(min - d, d);
        assert(d * (min - d) == (min - d) * d) by (nonlinear_arith);
    }
}

/// The push along one axis carries the sign of the gap and never flips
/// past zero: a positive gap pushes right or not at all, a negative one
/// pushes left or not at all.
proof fn lemma_push_sign(min: int, d: int, delta: int)
    requires
        0 < d < min,
    ensures
        delta > 0 ==> push_of(min, d, delta) >= 0,
        delta < 0 ==> push_of(min, d, delta) <= 0,
{
    let ad = abs_i(delta);
    let a = (min - d) * ad;
    assert(a >= 0) by (nonlinear_arith)
        requires
            a == (min - d) * ad,
            ad >= 0,
            min - d > 0,
    ;
    vstd::arithmetic::div_mod::lemma_div_pos_is_pos(a, d);
}


/// All ships of the snapshot sit at one point `(x, y)`.
pub open spec fn all_at(snap: Seq<Ship>, x: int, y: int) -> bool {
    forall|i: int| 0 <= i < snap.len() ==> (#[trigger] snap[i]).x == x && snap[i].y == y
}

/// A correction chain over exactly overlapping ships moves nothing.
proof fn lemma_adjusted_from_all_overlapping(
    x: int,
    y: int,
    me: int,
    snap: Seq<Ship>,
    min: int,
    j: int,
)
    requires
        0 < min,
        abs_i(x) + min <= ARENA_LIMIT as int,
        abs_i(y) + min <= ARENA_LIMIT as int,
        all_at(snap, x, y),
    ensures
        adjusted_from(x, y, me, snap, min, j) == (x, y),
    decreases snap.len() - j,
{
    if 0 <= j < snap.len() {
        lemma_pair_adjusted_never_collapses(x, y, snap[j].x as int, snap[j].y as int, min);
        lemma_adjusted_from_all_overlapping(x, y, me, snap, min, j + 1);
    }
}

/// Law: a whole separation pass over a roster of exactly overlapping
/// ships changes nothing: zero-distance pairs are skipped, not
/// corrected, so the solver never manufactures motion out of an exact
/// overlap. The point must leave `min` units of room to the arena edge.
pub proof fn lemma_separated_overlapping_unchanged(snap: Seq<Ship>, min: int, x: int, y: int)
    requires
        0 < min,
        abs_i(x) + min <= ARENA_LIMIT as int,
        abs_i(y) + min <= ARENA_LIMIT as int,
        all_at(snap, x, y),
    ensures
        separated(snap, min) == snap,
{
    assert forall|i: int| 0 <= i < snap.len() implies separated(snap, min)[i] == snap[i] by {
        lemma_adjusted_from_all_overlapping(x, y, i, snap, min, 0);
        assert(snap[i].x as int == x && snap[i].y as int == y);
    }
    assert(separated(snap, min) =~= snap);
}

} // verus!
