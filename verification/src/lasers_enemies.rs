//! Enemy projectiles: the periodic volley fired by every surviving ship,
//! downward motion at 365 units per second, and the all-pairs collision
//! pass between player and enemy projectiles.

use vstd::prelude::*;

use crate::game::GameState;
use crate::geom::abs_i;
use crate::world::{
    cmd_bounded, lemma_cmds_bounded_push, moved_lasers, same_cues, same_flags, same_modes,
    same_pending, same_queue, same_store, same_vis, ships_bounded, wf, world_unchanged, Command,
    Cue, EntStore, Ship, World, FIRE_PERIOD_MS, MAX_ROSTER, POS_LIMIT,
};

verus! {

/// A player projectile at `(plx, ply)` collides with an enemy projectile
/// at `(elx, ely)`: the horizontal gap is under 10 units and the player
/// projectile sits in the band 10 units either side of the enemy one.
/// Coordinates are in thousandths of a unit.
pub open spec fn lasers_clash(plx: int, ply: int, elx: int, ely: int) -> bool {
    ply > ely - 10_000 && ply < ely + 10_000 && abs_i(plx - elx) < 10_000
}

/// Runs the projectile-versus-projectile test; mirrors `lasers_clash`.
pub fn player_laser_hits_enemy_laser(plx: i64, ply: i64, elx: i64, ely: i64) -> (r: bool)
    requires
        -POS_LIMIT <= plx <= POS_LIMIT,
        -POS_LIMIT <= ply <= POS_LIMIT,
        -POS_LIMIT <= elx <= POS_LIMIT,
        -POS_LIMIT <= ely <= POS_LIMIT,
    ensures
        r == lasers_clash(plx as int, ply as int, elx as int, ely as int),
{
    let dx = if plx >= elx {
        plx - elx
    } else {
        elx - plx
    };
    ply > ely - 10_000 && ply < ely + 10_000 && dx < 10_000
}

/// One enemy projectile per surviving ship, at the ship's position, with
/// consecutive ids starting at `base`.
pub open spec fn volley_cmds(es: Seq<Ship>, base: u64) -> Seq<Command> {
    Seq::new(
        es.len(),
        |i: int| Command::SpawnEnemyLaser { id: (base + i) as u64, x: es[i].x, y: es[i].y },
    )
}

/// The repeating fire timer, shared across all levels: while in game it
/// advances by the frame's elapsed time; every 3.5 seconds it expires,
/// and every surviving enemy ship of every level fires one projectile
/// from its position. If at least one was fired, exactly one shared cue
/// plays. Outside the in-game state the timer does not advance.
pub fn enemies_shoot(w: &mut World, dt_ms: u32)
    requires
        wf(*old(w)),
        old(w).next_id <= u64::MAX - 3 * (MAX_ROSTER as u64),
    ensures
        wf(*final(w)),
        old(w).state != GameState::InGame ==> world_unchanged(*old(w), *final(w)),
        old(w).state == GameState::InGame && old(w).fire_timer_ms + dt_ms < FIRE_PERIOD_MS ==> (
        final(w).fire_timer_ms == old(w).fire_timer_ms + dt_ms && same_queue(*old(w), *final(w))
            && same_cues(*old(w), *final(w)) && final(w).next_id == old(w).next_id),
        old(w).state == GameState::InGame && old(w).fire_timer_ms + dt_ms >= FIRE_PERIOD_MS ==> (
        final(w).fire_timer_ms == (old(w).fire_timer_ms + dt_ms) % (FIRE_PERIOD_MS as int)
            && final(w).queue@ == old(w).queue@ + volley_cmds(
            old(w).enemies_level_1@ + old(w).enemies_level_2@ + old(w).enemies_level_3@,
            old(w).next_id,
        )
            && final(w).next_id == old(w).next_id + (old(w).enemies_level_1@.len()
            + old(w).enemies_level_2@.len() + old(w).enemies_level_3@.len())
            && final(w).cues@ == (if old(w).enemies_level_1@.len()
            + old(w).enemies_level_2@.len() + old(w).enemies_level_3@.len() > 0 {
            old(w).cues@.push(Cue::EnemyVolley)
        } else {
            old(w).cues@
        })),
        final(w).store() == old(w).store(),
        final(w).spawned == old(w).spawned,
        same_modes(*old(w), *final(w)),
        same_pending(*old(w), *final(w)),
        same_vis(*old(w), *final(w)),
{
    if !(w.state == GameState::InGame) {
        return ;
    }
    let total: u64 = (w.fire_timer_ms as u64) + (dt_ms as u64);
    if total < (FIRE_PERIOD_MS as u64) {
        w.fire_timer_ms = total as u32;
        return ;
    }
    w.fire_timer_ms = (total % (FIRE_PERIOD_MS as u64)) as u32;
    let mut es: Vec<Ship> = Vec::new();
    crate::world::append_ships(&mut es, &w.enemies_level_1);
    crate::world::append_ships(&mut es, &w.enemies_level_2);
    crate::world::append_ships(&mut es, &w.enemies_level_3);
    proof {
        assert(es@ =~= old(w).enemies_level_1@ + old(w).enemies_level_2@ + old(
            w,
        ).enemies_level_3@);
        assert forall|k: int| 0 <= k < es@.len() implies crate::world::ship_bounded(
            #[trigger] es@[k],
            POS_LIMIT as int,
        ) by {
            let a = old(w).enemies_level_1@;
            let b = old(w).enemies_level_2@;
            let c = old(w).enemies_level_3@;
            if k < a.len() {
                assert(es@[k] == a[k]);
            } else if k < a.len() + b.len() {
                assert(es@[k] == b[k - a.len()]);
            } else {
                assert(es@[k] == c[k - a.len() - b.len()]);
            }
        }
    }
    let ghost esv = es@;
    let ghost base = w.next_id;
    let n = es.len();
    let mut i: usize = 0;
    proof {
        assert(old(w).queue@ + volley_cmds(esv.take(0), base) =~= old(w).queue@);
    }
    while i < n
        invariant
            i <= n,
            n == esv.len(),
            es@ == esv,
            n <= 3 * MAX_ROSTER,
            ships_bounded(esv, POS_LIMIT as int),
            base + n <= u64::MAX,
            w.next_id == base + i,
            crate::world::cmds_bounded(w.queue@),
            w.queue@ == old(w).queue@ + volley_cmds(esv.take(i as int), base),
            w.cues@ == old(w).cues@,
            w.store() == old(w).store(),
            w.state == old(w).state,
            w.level == old(w).level,
            w.pending_state == old(w).pending_state,
            w.pending_level == old(w).pending_level,
            w.spawned == old(w).spawned,
            w.fire_timer_ms == (old(w).fire_timer_ms + dt_ms) % (FIRE_PERIOD_MS as int),
            w.gameplay_visible == old(w).gameplay_visible,
        decreases n - i,
    {
        let e = es[i];
        let ghost qpre = w.queue@;
        w.queue.push(Command::SpawnEnemyLaser { id: w.next_id, x: e.x, y: e.y });
        w.next_id = w.next_id + 1;
        proof {
            lemma_cmds_bounded_push(
                qpre,
                Command::SpawnEnemyLaser { id: (base + i) as u64, x: e.x, y: e.y },
            );
            assert(volley_cmds(esv.take(i as int + 1), base) =~= volley_cmds(
                esv.take(i as int),
                base,
            ).push(Command::SpawnEnemyLaser { id: (base + i) as u64, x: e.x, y: e.y }));
            assert(w.queue@ =~= old(w).queue@ + volley_cmds(esv.take(i as int + 1), base));
        }
        i += 1;
    }
    proof {
        assert(esv.take(n as int) =~= esv);
    }
    if es.len() > 0 {
        w.cues.push(Cue::EnemyVolley);
    }
}

/// While in game, enemy projectiles fall at 365 units per second, scaled
/// by the elapsed milliseconds of the frame.
pub fn move_lasers_enemies(w: &mut World, dt_ms: u32)
    requires
        wf(*old(w)),
    ensures
        wf(*final(w)),
        old(w).state == GameState::InGame ==> final(w).store() == (EntStore {
            enemy_lasers: moved_lasers(old(w).enemy_lasers@, -365 * dt_ms as int),
            ..old(w).store()
        }),
        old(w).state != GameState::InGame ==> world_unchanged(*old(w), *final(w)),
        final(w).next_id == old(w).next_id,
        same_modes(*old(w), *final(w)),
        same_pending(*old(w), *final(w)),
        same_flags(*old(w), *final(w)),
        same_queue(*old(w), *final(w)),
        same_cues(*old(w), *final(w)),
        same_vis(*old(w), *final(w)),
{
    if w.state == GameState::InGame {
        let dv = -365 * (dt_ms as i64);
        crate::world::shift_lasers(&mut w.enemy_lasers, dv);
    }
}

/// The despawns one player projectile causes against every enemy
/// projectile it overlaps: for each colliding pair, the player projectile
/// then the enemy one. Every pair is tested; there is no first-match cut.
pub open spec fn clash_cmds_one(pl: Ship, els: Seq<Ship>) -> Seq<Command>
    decreases els.len(),
{
    if els.len() == 0 {
        Seq::empty()
    } else {
        let rest = clash_cmds_one(pl, els.drop_first());
        if lasers_clash(pl.x as int, pl.y as int, els.first().x as int, els.first().y as int) {
            seq![
                Command::Despawn { id: pl.id },
                Command::Despawn { id: els.first().id },
            ] + rest
        } else {
            rest
        }
    }
}

/// One cue per colliding pair for one player projectile.
pub open spec fn clash_cues_one(pl: Ship, els: Seq<Ship>) -> Seq<Cue>
    decreases els.len(),
{
    if els.len() == 0 {
        Seq::empty()
    } else {
        let rest = clash_cues_one(pl, els.drop_first());
        if lasers_clash(pl.x as int, pl.y as int, els.first().x as int, els.first().y as int) {
            seq![Cue::LaserClash] + rest
        } else {
            rest
        }
    }
}

/// The despawns of the whole pass, player projectile by player
/// projectile, each tested against the frame snapshot of all enemy
/// projectiles.
pub open spec fn clash_cmds(pls: Seq<Ship>, els: Seq<Ship>) -> Seq<Command>
    decreases pls.len(),
{
    if pls.len() == 0 {
        Seq::empty()
    } else {
        clash_cmds_one(pls.first(), els) + clash_cmds(pls.drop_first(), els)
    }
}

/// The cues of the whole pass, one per colliding pair.
pub open spec fn clash_cues(pls: Seq<Ship>, els: Seq<Ship>) -> Seq<Cue>
    decreases pls.len(),
{
    if pls.len() == 0 {
        Seq::empty()
    } else {
        clash_cues_one(pls.first(), els) + clash_cues(pls.drop_first(), els)
    }
}

/// Testing one more enemy projectile appends its pair, if it collides.
proof fn lemma_clash_one_snoc(pl: Ship, els: Seq<Ship>, el: Ship)
    ensures
        clash_cmds_one(pl, els.push(el)) == clash_cmds_one(pl, els) + (if lasers_clash(
            pl.x as int,
            pl.y as int,
            el.x as int,
            el.y as int,
        ) {
            seq![Command::Despawn { id: pl.id }, Command::Despawn { id: el.id }]
        } else {
            Seq::empty()
        }),
        clash_cues_one(pl, els.push(el)) == clash_cues_one(pl, els) + (if lasers_clash(
            pl.x as int,
            pl.y as int,
            el.x as int,
            el.y as int,
        ) {
            seq![Cue::LaserClash]
        } else {
            Seq::empty()
        }),
    decreases els.len(),
{
    let pair = if lasers_clash(pl.x as int, pl.y as int, el.x as int, el.y as int) {
        seq![Command::Despawn { id: pl.id }, Command::Despawn { id: el.id }]
    } else {
        Seq::empty()
    };
    let cue = if lasers_clash(pl.x as int, pl.y as int, el.x as int, el.y as int) {
        seq![Cue::LaserClash]
    } else {
        Seq::empty()
    };
    if els.len() == 0 {
        assert(els.push(el).first() == el);
        assert(els.push(el).drop_first() =~= els);
        assert(pair + clash_cmds_one(pl, els) =~= clash_cmds_one(pl, els) + pair);
        assert(cue + clash_cues_one(pl, els) =~= clash_cues_one(pl, els) + cue);
    } else {
        assert(els.push(el).first() == els.first());
        assert(els.push(el).drop_first() =~= els.drop_first().push(el));
        lemma_clash_one_snoc(pl, els.drop_first(), el);
        let head_cmds = if lasers_clash(
            pl.x as int,
            pl.y as int,
            els.first().x as int,
            els.first().y as int,
        ) {
            seq![
                Command::Despawn { id: pl.id },
                Command::Despawn { id: els.first().id },
            ]
        } else {
            Seq::<Command>::empty()
        };
        let head_cues = if lasers_clash(
            pl.x as int,
            pl.y as int,
            els.first().x as int,
            els.first().y as int,
        ) {
            seq![Cue::LaserClash]
        } else {
            Seq::<Cue>::empty()
        };
        assert(head_cmds + (clash_cmds_one(pl, els.drop_first()) + pair) =~= (head_cmds
            + clash_cmds_one(pl, els.drop_first())) + pair);
        assert(head_cues + (clash_cues_one(pl, els.drop_first()) + cue) =~= (head_cues
            + clash_cues_one(pl, els.drop_first())) + cue);
    }
}

/// Taking one more player projectile appends its pass.
proof fn lemma_clash_snoc(pls: Seq<Ship>, pl: Ship, els: Seq<Ship>)
    ensures
        clash_cmds(pls.push(pl), els) == clash_cmds(pls, els) + clash_cmds_one(pl, els),
        clash_cues(pls.push(pl), els) == clash_cues(pls, els) + clash_cues_one(pl, els),
    decreases pls.len(),
{
    if pls.len() == 0 {
        assert(pls.push(pl).first() == pl);
        assert(pls.push(pl).drop_first() =~= pls);
        assert(clash_cmds_one(pl, els) + clash_cmds(pls, els) =~= clash_cmds(pls, els)
            + clash_cmds_one(pl, els));
        assert(clash_cues_one(pl, els) + clash_cues(pls, els) =~= clash_cues(pls, els)
            + clash_cues_one(pl, els));
    } else {
        assert(pls.push(pl).first() == pls.first());
        assert(pls.push(pl).drop_first() =~= pls.drop_first().push(pl));
        lemma_clash_snoc(pls.drop_first(), pl, els);
        assert(clash_cmds_one(pls.first(), els) + (clash_cmds(pls.drop_first(), els)
            + clash_cmds_one(pl, els)) =~= (clash_cmds_one(pls.first(), els) + clash_cmds(
            pls.drop_first(),
            els,
        )) + clash_cmds_one(pl, els));
        assert(clash_cues_one(pls.first(), els) + (clash_cues(pls.drop_first(), els)
            + clash_cues_one(pl, els)) =~= (clash_cues_one(pls.first(), els) + clash_cues(
            pls.drop_first(),
            els,
        )) + clash_cues_one(pl, els));
    }
}

/// While in game, every player projectile is tested against every enemy
/// projectile of the frame snapshot; each colliding pair is despawned
/// and plays a cue. All pairs are tested; despawns of a projectile hit
/// twice are tolerant.
pub fn collision_lasers_player_with_lasers_enemies(w: &mut World)
    requires
        wf(*old(w)),
    ensures
        wf(*final(w)),
        old(w).state != GameState::InGame ==> world_unchanged(*old(w), *final(w)),
        old(w).state == GameState::InGame ==> final(w).queue@ == old(w).queue@ + clash_cmds(
            old(w).player_lasers@,
            old(w).enemy_lasers@,
        ) && final(w).cues@ == old(w).cues@ + clash_cues(
            old(w).player_lasers@,
            old(w).enemy_lasers@,
        ),
        same_store(*old(w), *final(w)),
        same_modes(*old(w), *final(w)),
        same_pending(*old(w), *final(w)),
        same_flags(*old(w), *final(w)),
        same_vis(*old(w), *final(w)),
{
    if !(w.state == GameState::InGame) {
        return ;
    }
    let n = w.player_lasers.len();
    let mut i: usize = 0;
    proof {
        assert(old(w).queue@ + clash_cmds(old(w).player_lasers@.take(0), old(w).enemy_lasers@)
            =~= old(w).queue@);
        assert(old(w).cues@ + clash_cues(old(w).player_lasers@.take(0), old(w).enemy_lasers@)
            =~= old(w).cues@);
    }
    while i < n
        invariant
            i <= n,
            n == w.player_lasers@.len(),
            w.player_lasers@ == old(w).player_lasers@,
            w.enemy_lasers@ == old(w).enemy_lasers@,
            ships_bounded(w.player_lasers@, POS_LIMIT as int),
            ships_bounded(w.enemy_lasers@, POS_LIMIT as int),
            crate::world::cmds_bounded(w.queue@),
            w.queue@ == old(w).queue@ + clash_cmds(
                old(w).player_lasers@.take(i as int),
                old(w).enemy_lasers@,
            ),
            w.cues@ == old(w).cues@ + clash_cues(
                old(w).player_lasers@.take(i as int),
                old(w).enemy_lasers@,
            ),
            w.store() == old(w).store(),
            w.next_id == old(w).next_id,
            w.state == old(w).state,
            w.level == old(w).level,
            w.pending_state == old(w).pending_state,
            w.pending_level == old(w).pending_level,
            w.spawned == old(w).spawned,
            w.fire_timer_ms == old(w).fire_timer_ms,
            w.gameplay_visible == old(w).gameplay_visible,
        decreases n - i,
    {
        let pl = w.player_lasers[i];
        let m = w.enemy_lasers.len();
        let mut j: usize = 0;
        let ghost qbase = w.queue@;
        let ghost cbase = w.cues@;
        proof {
            assert(qbase + clash_cmds_one(pl, old(w).enemy_lasers@.take(0)) =~= qbase);
            assert(cbase + clash_cues_one(pl, old(w).enemy_lasers@.take(0)) =~= cbase);
        }
        while j < m
            invariant
                j <= m,
                m == w.enemy_lasers@.len(),
                w.player_lasers@ == old(w).player_lasers@,
                w.enemy_lasers@ == old(w).enemy_lasers@,
                -POS_LIMIT <= pl.x <= POS_LIMIT,
                -POS_LIMIT <= pl.y <= POS_LIMIT,
                ships_bounded(w.enemy_lasers@, POS_LIMIT as int),
                crate::world::cmds_bounded(w.queue@),
                w.queue@ == qbase + clash_cmds_one(pl, old(w).enemy_lasers@.take(j as int)),
                w.cues@ == cbase + clash_cues_one(pl, old(w).enemy_lasers@.take(j as int)),
                w.store() == old(w).store(),
                w.next_id == old(w).next_id,
                w.state == old(w).state,
                w.level == old(w).level,
                w.pending_state == old(w).pending_state,
                w.pending_level == old(w).pending_level,
                w.spawned == old(w).spawned,
                w.fire_timer_ms == old(w).fire_timer_ms,
                w.gameplay_visible == old(w).gameplay_visible,
            decreases m - j,
        {
            let el = w.enemy_lasers[j];
            let ghost qpre = w.queue@;
            if player_laser_hits_enemy_laser(pl.x, pl.y, el.x, el.y) {
                w.queue.push(Command::Despawn { id: pl.id });
                w.queue.push(Command::Despawn { id: el.id });
                w.cues.push(Cue::LaserClash);
                proof {
                    lemma_cmds_bounded_push(qpre, Command::Despawn { id: pl.id });
                    lemma_cmds_bounded_push(
                        qpre.push(Command::Despawn { id: pl.id }),
                        Command::Despawn { id: el.id },
                    );
                }
            }
            proof {
                lemma_clash_one_snoc(pl, old(w).enemy_lasers@.take(j as int), el);
                assert(old(w).enemy_lasers@.take(j as int + 1) =~= old(w).enemy_lasers@.take(
                    j as int,
                ).push(el));
                assert(w.queue@ =~= qbase + clash_cmds_one(
                    pl,
                    old(w).enemy_lasers@.take(j as int + 1),
                ));
                assert(w.cues@ =~= cbase + clash_cues_one(
                    pl,
                    old(w).enemy_lasers@.take(j as int + 1),
                ));
            }
            j += 1;
        }
        proof {
            assert(old(w).enemy_lasers@.take(m as int) =~= old(w).enemy_lasers@);
            lemma_clash_snoc(
                old(w).player_lasers@.take(i as int),
                pl,
                old(w).enemy_lasers@,
            );
            assert(old(w).player_lasers@.take(i as int + 1) =~= old(w).player_lasers@.take(
                i as int,
            ).push(pl));
            assert(w.queue@ =~= old(w).queue@ + clash_cmds(
                old(w).player_lasers@.take(i as int + 1),
                old(w).enemy_lasers@,
            ));
            assert(w.cues@ =~= old(w).cues@ + clash_cues(
                old(w).player_lasers@.take(i as int + 1),
                old(w).enemy_lasers@,
            ));
        }
        i += 1;
    }
    proof {
        assert(old(w).player_lasers@.take(n as int) =~= old(w).player_lasers@);
    }
}

} // verus!
