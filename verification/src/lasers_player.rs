//! Player projectiles: firing, upward motion at 450 units per second,
//! and the first-match collision pass against enemy ships.

use vstd::prelude::*;

use crate::game::GameState;
use crate::geom::abs_i;
use crate::world::{
    cmd_bounded, lemma_cmds_bounded_push, moved_lasers, same_cues, same_flags, same_modes,
    same_pending, same_queue, same_store, same_vis, ships_bounded, wf, world_unchanged, Command,
    Cue, EntStore, Ship, World, POS_LIMIT,
};

verus! {

/// A player projectile at `(lx, ly)` hits an enemy ship at `(ex, ey)`:
/// the horizontal gap is under 30 units and the projectile sits in the
/// band from the ship's y up to 30 units above it. Coordinates are in
/// thousandths of a unit.
pub open spec fn hits_enemy(lx: int, ly: int, ex: int, ey: int) -> bool {
    ly > ey && ly - 30_000 < ey && abs_i(lx - ex) < 30_000
}

/// Runs the player-projectile-versus-enemy test; mirrors `hits_enemy`.
pub fn player_laser_hits_enemy(lx: i64, ly: i64, ex: i64, ey: i64) -> (r: bool)
    requires
        -POS_LIMIT <= lx <= POS_LIMIT,
        -POS_LIMIT <= ly <= POS_LIMIT,
        -POS_LIMIT <= ex <= POS_LIMIT,
        -POS_LIMIT <= ey <= POS_LIMIT,
    ensures
        r == hits_enemy(lx as int, ly as int, ex as int, ey as int),
{
    let dx = if lx >= ex {
        lx - ex
    } else {
        ex - lx
    };
    ly > ey && ly - 30_000 < ey && dx < 30_000
}

/// While in game, a fire press spawns one player projectile at the player
/// ship's position and plays the shot cue; the cue plays on the press
/// even if no player ship is alive.
pub fn lasers_player(w: &mut World, fire_pressed: bool)
    requires
        wf(*old(w)),
        old(w).next_id < u64::MAX,
    ensures
        wf(*final(w)),
        !(fire_pressed && old(w).state == GameState::InGame) ==> world_unchanged(
            *old(w),
            *final(w),
        ),
        fire_pressed && old(w).state == GameState::InGame ==> final(w).cues@ == old(w).cues@.push(
            Cue::PlayerShot,
        ) && (match old(w).player {
            Some(p) => final(w).queue@ == old(w).queue@.push(
                Command::SpawnPlayerLaser { id: old(w).next_id, x: p.x, y: p.y },
            ) && final(w).next_id == old(w).next_id + 1,
            None => final(w).queue@ == old(w).queue@ && final(w).next_id == old(w).next_id,
        }),
        final(w).store() == old(w).store(),
        same_modes(*old(w), *final(w)),
        same_pending(*old(w), *final(w)),
        same_flags(*old(w), *final(w)),
        same_vis(*old(w), *final(w)),
{
    if fire_pressed && w.state == GameState::InGame {
        match w.player {
            Some(p) => {
                w.queue.push(Command::SpawnPlayerLaser { id: w.next_id, x: p.x, y: p.y });
                w.next_id = w.next_id + 1;
                proof {
                    lemma_cmds_bounded_push(
                        old(w).queue@,
                        Command::SpawnPlayerLaser { id: old(w).next_id, x: p.x, y: p.y },
                    );
                }
            },
            None => {},
        }
        w.cues.push(Cue::PlayerShot);
    }
}

/// While in game, player projectiles rise at 450 units per second,
/// scaled by the elapsed milliseconds of the frame.
pub fn move_lasers(w: &mut World, dt_ms: u32)
    requires
        wf(*old(w)),
    ensures
        wf(*final(w)),
        old(w).state == GameState::InGame ==> final(w).store() == (EntStore {
            player_lasers: moved_lasers(old(w).player_lasers@, 450 * dt_ms as int),
            ..old(w).store()
        }),
        old(w).state != GameState::InGame ==> world_unchanged(*old(w), *final(w)),
        final(w).next_id == old(w).next_id,
        same_modes(*old(w), *final(w)),
        same_pending(*old(w), *final(w)),
        same_flags(*old(w), *final(w)),
        same_queue(*old(w), *final(w)),
        same_cues(*old(w), *final(w)),
        same_vis(*old(w), *final(w)),
{
    if w.state == GameState::InGame {
        let dv = 450 * (dt_ms as i64);
        crate::world::shift_lasers(&mut w.player_lasers, dv);
    }
}

/// Index of the first enemy ship hit by this projectile, or -1.
pub open spec fn first_enemy_hit(l: Ship, es: Seq<Ship>) -> int
    decreases es.len(),
{
    if es.len() == 0 {
        -1
    } else if hits_enemy(l.x as int, l.y as int, es.first().x as int, es.first().y as int) {
        0
    } else {
        let r = first_enemy_hit(l, es.drop_first());
        if r < 0 {
            -1
        } else {
            r + 1
        }
    }
}

/// `first_enemy_hit` finds the least hitting index, or -1 if none hits.
pub proof fn lemma_first_enemy_hit(l: Ship, es: Seq<Ship>)
    ensures
        first_enemy_hit(l, es) == -1 ==> forall|j: int|
            0 <= j < es.len() ==> !hits_enemy(
                l.x as int,
                l.y as int,
                (#[trigger] es[j]).x as int,
                es[j].y as int,
            ),
        first_enemy_hit(l, es) != -1 ==> 0 <= first_enemy_hit(l, es) < es.len() && hits_enemy(
            l.x as int,
            l.y as int,
            es[first_enemy_hit(l, es)].x as int,
            es[first_enemy_hit(l, es)].y as int,
        ) && forall|j: int|
            0 <= j < first_enemy_hit(l, es) ==> !hits_enemy(
                l.x as int,
                l.y as int,
                (#[trigger] es[j]).x as int,
                es[j].y as int,
            ),
    decreases es.len(),
{
    if es.len() > 0 {
        lemma_first_enemy_hit(l, es.drop_first());
        assert(es[0] == es.first());
        assert forall|j: int| 0 < j < es.len() implies es.drop_first()[j - 1] == es[j] by {}
    }
}

/// The despawns one projectile causes: the first ship it hits, then the
/// projectile itself; nothing if it hits no ship.
pub open spec fn enemy_hit_cmds_one(l: Ship, es: Seq<Ship>) -> Seq<Command> {
    let k = first_enemy_hit(l, es);
    if k < 0 {
        Seq::empty()
    } else {
        seq![Command::Despawn { id: es[k].id }, Command::Despawn { id: l.id }]
    }
}

/// The cue one projectile causes: one hit cue if it hits a ship.
pub open spec fn enemy_hit_cues_one(l: Ship, es: Seq<Ship>) -> Seq<Cue> {
    if first_enemy_hit(l, es) < 0 {
        Seq::empty()
    } else {
        seq![Cue::EnemyHit]
    }
}

/// The despawns of the whole pass, projectile by projectile, each tested
/// against the same frame snapshot of all enemy ships.
pub open spec fn enemy_hit_cmds(ls: Seq<Ship>, es: Seq<Ship>) -> Seq<Command>
    decreases ls.len(),
{
    if ls.len() == 0 {
        Seq::empty()
    } else {
        enemy_hit_cmds_one(ls.first(), es) + enemy_hit_cmds(ls.drop_first(), es)
    }
}

/// The cues of the whole pass, one per projectile that hits.
pub open spec fn enemy_hit_cues(ls: Seq<Ship>, es: Seq<Ship>) -> Seq<Cue>
    decreases ls.len(),
{
    if ls.len() == 0 {
        Seq::empty()
    } else {
        enemy_hit_cues_one(ls.first(), es) + enemy_hit_cues(ls.drop_first(), es)
    }
}

/// Taking one more projectile appends its commands and cues.
proof fn lemma_enemy_hit_snoc(ls: Seq<Ship>, l: Ship, es: Seq<Ship>)
    ensures
        enemy_hit_cmds(ls.push(l), es) == enemy_hit_cmds(ls, es) + enemy_hit_cmds_one(l, es),
        enemy_hit_cues(ls.push(l), es) == enemy_hit_cues(ls, es) + enemy_hit_cues_one(l, es),
    decreases ls.len(),
{
    if ls.len() == 0 {
        assert(ls.push(l).first() == l);
        assert(ls.push(l).drop_first() =~= ls);
        assert(enemy_hit_cmds_one(l, es) + enemy_hit_cmds(ls, es) =~= enemy_hit_cmds(ls, es)
            + enemy_hit_cmds_one(l, es));
        assert(enemy_hit_cues_one(l, es) + enemy_hit_cues(ls, es) =~= enemy_hit_cues(ls, es)
            + enemy_hit_cues_one(l, es));
    } else {
        assert(ls.push(l).first() == ls.first());
        assert(ls.push(l).drop_first() =~= ls.drop_first().push(l));
        lemma_enemy_hit_snoc(ls.drop_first(), l, es);
        assert(enemy_hit_cmds_one(ls.first(), es) + (enemy_hit_cmds(ls.drop_first(), es)
            + enemy_hit_cmds_one(l, es)) =~= (enemy_hit_cmds_one(ls.first(), es) + enemy_hit_cmds(
            ls.drop_first(),
            es,
        )) + enemy_hit_cmds_one(l, es));
        assert(enemy_hit_cues_one(ls.first(), es) + (enemy_hit_cues(ls.drop_first(), es)
            + enemy_hit_cues_one(l, es)) =~= (enemy_hit_cues_one(ls.first(), es) + enemy_hit_cues(
            ls.drop_first(),
            es,
        )) + enemy_hit_cues_one(l, es));
    }
}

/// Find the first enemy ship of the snapshot hit by this projectile.
fn find_enemy_hit(l: Ship, es: &Vec<Ship>) -> (r: Option<usize>)
    requires
        -POS_LIMIT <= l.x <= POS_LIMIT,
        -POS_LIMIT <= l.y <= POS_LIMIT,
        ships_bounded(es@, POS_LIMIT as int),
    ensures
        match r {
            None => first_enemy_hit(l, es@) == -1,
            Some(j) => j < es@.len() && j as int == first_enemy_hit(l, es@),
        },
{
    let n = es.len();
    let mut j: usize = 0;
    while j < n
        invariant
            j <= n,
            n == es@.len(),
            ships_bounded(es@, POS_LIMIT as int),
            -POS_LIMIT <= l.x <= POS_LIMIT,
            -POS_LIMIT <= l.y <= POS_LIMIT,
            forall|k: int|
                0 <= k < j ==> !hits_enemy(
                    l.x as int,
                    l.y as int,
                    (#[trigger] es@[k]).x as int,
                    es@[k].y as int,
                ),
        decreases n - j,
    {
        let e = es[j];
        if player_laser_hits_enemy(l.x, l.y, e.x, e.y) {
            proof {
                lemma_first_enemy_hit(l, es@);
            }
            return Some(j);
        }
        j += 1;
    }
    proof {
        lemma_first_enemy_hit(l, es@);
    }
    None
}

/// While in game, each player projectile is tested against the frame's
/// snapshot of all enemy ships, level one first, then two, then three:
/// on its first match the ship and the projectile are despawned and a
/// cue plays, and scanning moves on to the next projectile.
pub fn collision_lasers_player_with_enemies(w: &mut World)
    requires
        wf(*old(w)),
    ensures
        wf(*final(w)),
        old(w).state != GameState::InGame ==> world_unchanged(*old(w), *final(w)),
        old(w).state == GameState::InGame ==> final(w).queue@ == old(w).queue@ + enemy_hit_cmds(
            old(w).player_lasers@,
            old(w).enemies_level_1@ + old(w).enemies_level_2@ + old(w).enemies_level_3@,
        ) && final(w).cues@ == old(w).cues@ + enemy_hit_cues(
            old(w).player_lasers@,
            old(w).enemies_level_1@ + old(w).enemies_level_2@ + old(w).enemies_level_3@,
        ),
        same_store(*old(w), *final(w)),
        same_modes(*old(w), *final(w)),
        same_pending(*old(w), *final(w)),
        same_flags(*old(w), *final(w)),
        same_vis(*old(w), *final(w)),
{
    if !(w.state == GameState::InGame) {
        return ;
    }
    let mut es: Vec<Ship> = Vec::new();
    crate::world::append_ships(&mut es, &w.enemies_level_1);
    crate::world::append_ships(&mut es, &w.enemies_level_2);
    crate::world::append_ships(&mut es, &w.enemies_level_3);
    proof {
        assert(es@ =~= old(w).enemies_level_1@ + old(w).enemies_level_2@ + old(
            w,
        ).enemies_level_3@);
        assert(ships_bounded(es@, POS_LIMIT as int)) by {
            assert forall|k: int| 0 <= k < es@.len() implies crate::world::ship_bounded(
                #[trigger] es@[k],
                POS_LIMIT as int,
            ) by {
                let a = old(w).enemies_level_1@;
                let b = old(w).enemies_level_2@;
                let c = old(w).enemies_level_3@;
                if k < a.len() {
                    assert(es@[k] == a[k]);
                } else if k < a.len() + b.len() {
                    assert(es@[k] == b[k - a.len()]);
                } else {
                    assert(es@[k] == c[k - a.len() - b.len()]);
                }
            }
        }
    }
    let ghost esv = es@;
    let n = w.player_lasers.len();
    let mut i: usize = 0;
    proof {
        assert(old(w).queue@ + enemy_hit_cmds(old(w).player_lasers@.take(0), esv) =~= old(
            w,
        ).queue@);
        assert(old(w).cues@ + enemy_hit_cues(old(w).player_lasers@.take(0), esv) =~= old(w).cues@);
    }
    while i < n
        invariant
            i <= n,
            n == w.player_lasers@.len(),
            w.player_lasers@ == old(w).player_lasers@,
            es@ == esv,
            ships_bounded(esv, POS_LIMIT as int),
            ships_bounded(w.player_lasers@, POS_LIMIT as int),
            crate::world::cmds_bounded(w.queue@),
            w.queue@ == old(w).queue@ + enemy_hit_cmds(old(w).player_lasers@.take(i as int), esv),
            w.cues@ == old(w).cues@ + enemy_hit_cues(old(w).player_lasers@.take(i as int), esv),
            w.store() == old(w).store(),
            w.next_id == old(w).next_id,
            w.state == old(w).state,
            w.level == old(w).level,
            w.pending_state == old(w).pending_state,
            w.pending_level == old(w).pending_level,
            w.spawned == old(w).spawned,
            w.fire_timer_ms == old(w).fire_timer_ms,
            w.gameplay_visible == old(w).gameplay_visible,
        decreases n - i,
    {
        let l = w.player_lasers[i];
        let hit = find_enemy_hit(l, &es);
        let ghost qpre = w.queue@;
        let ghost cpre = w.cues@;
        match hit {
            None => {},
            Some(k) => {
                let e = es[k];
                w.queue.push(Command::Despawn { id: e.id });
                w.queue.push(Command::Despawn { id: l.id });
                w.cues.push(Cue::EnemyHit);
                proof {
                    lemma_cmds_bounded_push(qpre, Command::Despawn { id: e.id });
                    lemma_cmds_bounded_push(
                        qpre.push(Command::Despawn { id: e.id }),
                        Command::Despawn { id: l.id },
                    );
                }
            },
        }
        proof {
            lemma_enemy_hit_snoc(old(w).player_lasers@.take(i as int), l, esv);
            assert(old(w).player_lasers@.take(i as int + 1) =~= old(w).player_lasers@.take(
                i as int,
            ).push(l));
            assert(w.queue@ =~= old(w).queue@ + enemy_hit_cmds(
                old(w).player_lasers@.take(i as int + 1),
                esv,
            ));
            assert(w.cues@ =~= old(w).cues@ + enemy_hit_cues(
                old(w).player_lasers@.take(i as int + 1),
                esv,
            ));
        }
        i += 1;
    }
    proof {
        assert(old(w).player_lasers@.take(n as int) =~= old(w).player_lasers@);
    }
}

} // verus!
