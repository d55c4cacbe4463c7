//! The meta game state and the systems that drive it: visibility, the start
//! and pause inputs, the game-over collision pass, winning, and restarting.

use vstd::prelude::*;

use crate::geom::abs_i;
use crate::levels::LevelState;
use crate::world::{
    cmd_bounded, despawn_cmds, same_cues, same_flags, same_modes, same_pending, same_queue,
    same_store, same_vis, wf, world_unchanged, Command, Cue, EntStore, OverlayKind, Ship, World, WorldView,
    POS_LIMIT,
};

verus! {

/// Top-level mode of the application. Exactly one value is active at a time.
#[derive(Clone, Copy, PartialEq, Eq, Structural, Debug)]
pub enum GameState {
    NotStarted,
    InGame,
    GameOver,
    Pause,
    Win,
}

/// An enemy projectile at `(lx, ly)` hits the player at `(px, py)`:
/// the horizontal gap is under 20 units and the projectile sits in the
/// vertical band 20 units either side of the player. Coordinates are in
/// thousandths of a unit.
pub open spec fn hits_player(lx: int, ly: int, px: int, py: int) -> bool {
    ly > py - 20_000 && ly < py + 20_000 && abs_i(lx - px) < 20_000
}

/// Runs the enemy-projectile-versus-player test; mirrors `hits_player`.
pub fn enemy_laser_hits_player(lx: i64, ly: i64, px: i64, py: i64) -> (r: bool)
    requires
        -POS_LIMIT <= lx <= POS_LIMIT,
        -POS_LIMIT <= ly <= POS_LIMIT,
        -POS_LIMIT <= px <= POS_LIMIT,
        -POS_LIMIT <= py <= POS_LIMIT,
    ensures
        r == hits_player(lx as int, ly as int, px as int, py as int),
{
    let dx = if lx >= px {
        lx - px
    } else {
        px - lx
    };
    ly > py - 20_000 && ly < py + 20_000 && dx < 20_000
}

/// Index of the first enemy projectile that hits the player, or -1.
pub open spec fn first_player_hit(p: Ship, els: Seq<Ship>) -> int
    decreases els.len(),
{
    if els.len() == 0 {
        -1
    } else if hits_player(els.first().x as int, els.first().y as int, p.x as int, p.y as int) {
        0
    } else {
        let r = first_player_hit(p, els.drop_first());
        if r < 0 {
            -1
        } else {
            r + 1
        }
    }
}

/// `first_player_hit` finds the least hitting index, or -1 if none hits.
pub proof fn lemma_first_player_hit(p: Ship, els: Seq<Ship>)
    ensures
        first_player_hit(p, els) == -1 ==> forall|j: int|
            0 <= j < els.len() ==> !hits_player(
                (#[trigger] els[j]).x as int,
                els[j].y as int,
                p.x as int,
                p.y as int,
            ),
        first_player_hit(p, els) != -1 ==> 0 <= first_player_hit(p, els) < els.len()
            && hits_player(
            els[first_player_hit(p, els)].x as int,
            els[first_player_hit(p, els)].y as int,
            p.x as int,
            p.y as int,
        ) && forall|j: int|
            0 <= j < first_player_hit(p, els) ==> !hits_player(
                (#[trigger] els[j]).x as int,
                els[j].y as int,
                p.x as int,
                p.y as int,
            ),
    decreases els.len(),
{
    if els.len() > 0 {
        lemma_first_player_hit(p, els.drop_first());
        assert(els[0] == els.first());
        assert forall|j: int| 0 < j < els.len() implies els.drop_first()[j - 1] == els[j] by {}
    }
}

/// Find the first enemy projectile that hits the player.
fn find_player_hit(p: Ship, els: &Vec<Ship>) -> (r: Option<usize>)
    requires
        -POS_LIMIT <= p.x <= POS_LIMIT,
        -POS_LIMIT <= p.y <= POS_LIMIT,
        crate::world::ships_bounded(els@, POS_LIMIT as int),
    ensures
        match r {
            None => first_player_hit(p, els@) == -1,
            Some(j) => j < els@.len() && j as int == first_player_hit(p, els@),
        },
{
    let n = els.len();
    let mut j: usize = 0;
    while j < n
        invariant
            j <= n,
            n == els@.len(),
            crate::world::ships_bounded(els@, POS_LIMIT as int),
            -POS_LIMIT <= p.x <= POS_LIMIT,
            -POS_LIMIT <= p.y <= POS_LIMIT,
            forall|k: int|
                0 <= k < j ==> !hits_player(
                    (#[trigger] els@[k]).x as int,
                    els@[k].y as int,
                    p.x as int,
                    p.y as int,
                ),
        decreases n - j,
    {
        let l = els[j];
        if enemy_laser_hits_player(l.x, l.y, p.x, p.y) {
            proof {
                lemma_first_player_hit(p, els@);
            }
            return Some(j);
        }
        j += 1;
    }
    proof {
        lemma_first_player_hit(p, els@);
    }
    None
}

/// The game-over pass fires: the game runs, a player is alive, and some
/// enemy projectile hits it.
pub open spec fn game_over_trigger(v: WorldView) -> bool {
    v.state == GameState::InGame && match v.player {
        Some(p) => first_player_hit(p, v.enemy_lasers) != -1,
        None => false,
    }
}

/// Everything the game-over path despawns, in emission order: the banner,
/// the player, the hitting projectile, then every player projectile and
/// every enemy ship of all three levels.
pub open spec fn game_over_cmds(v: WorldView) -> Seq<Command> {
    let p = v.player.unwrap();
    let k = first_player_hit(p, v.enemy_lasers);
    seq![
        Command::SpawnOverlay { kind: OverlayKind::GameOverBanner },
        Command::Despawn { id: p.id },
        Command::Despawn { id: v.enemy_lasers[k].id },
    ] + despawn_cmds(v.player_lasers) + despawn_cmds(v.enemies_level_1) + despawn_cmds(
        v.enemies_level_2,
    ) + despawn_cmds(v.enemies_level_3)
}

/// While in game, test every enemy projectile against the player; on the
/// first hit, request the game-over transition, show the banner, play the
/// cue, and despawn the player, the projectile, all player projectiles and
/// all enemy ships. At most one hit is processed per frame.
pub fn game_over(w: &mut World)
    requires
        wf(*old(w)),
    ensures
        wf(*final(w)),
        !game_over_trigger(old(w)@) ==> world_unchanged(*old(w), *final(w)),
        game_over_trigger(old(w)@) ==> final(w).pending_state == Some(GameState::GameOver)
            && final(w).pending_level == old(w).pending_level && final(w).queue@ == old(w).queue@
            + game_over_cmds(old(w)@) && final(w).cues@ == old(w).cues@.push(Cue::GameOver)
            && same_store(*old(w), *final(w)) && same_modes(*old(w), *final(w)) && same_flags(
            *old(w),
            *final(w),
        ) && same_vis(*old(w), *final(w)),
{
    if !(w.state == GameState::InGame) {
        return ;
    }
    let p = match w.player {
        Some(p) => p,
        None => { return ; },
    };
    let hit = find_player_hit(p, &w.enemy_lasers);
    match hit {
        None => {},
        Some(j) => {
            let l = w.enemy_lasers[j];
            w.pending_state = Some(GameState::GameOver);
            w.queue.push(Command::SpawnOverlay { kind: OverlayKind::GameOverBanner });
            w.cues.push(Cue::GameOver);
            w.queue.push(Command::Despawn { id: p.id });
            w.queue.push(Command::Despawn { id: l.id });
            let ghost q0 = w.queue@;
            push_all_despawns(w);
            proof {
                assert(q0 =~= old(w).queue@ + seq![
                    Command::SpawnOverlay { kind: OverlayKind::GameOverBanner },
                    Command::Despawn { id: p.id },
                    Command::Despawn { id: l.id },
                ]);
                assert(w.queue@ =~= old(w).queue@ + game_over_cmds(old(w)@));
                let three = seq![
                    Command::SpawnOverlay { kind: OverlayKind::GameOverBanner },
                    Command::Despawn { id: p.id },
                    Command::Despawn { id: l.id },
                ];
                assert(crate::world::cmds_bounded(three)) by {
                    assert forall|i: int| 0 <= i < three.len() implies cmd_bounded(
                        #[trigger] three[i],
                    ) by {
                        if i == 0 {
                        } else if i == 1 {
                        } else {
                            assert(three[i] == (Command::Despawn { id: l.id }));
                        }
                    }
                }
                crate::world::lemma_despawn_cmds_bounded(old(w).player_lasers@);
                crate::world::lemma_despawn_cmds_bounded(old(w).enemies_level_1@);
                crate::world::lemma_despawn_cmds_bounded(old(w).enemies_level_2@);
                crate::world::lemma_despawn_cmds_bounded(old(w).enemies_level_3@);
                crate::world::lemma_cmds_bounded_append(old(w).queue@, three);
                crate::world::lemma_cmds_bounded_append(
                    old(w).queue@ + three,
                    despawn_cmds(old(w).player_lasers@),
                );
                crate::world::lemma_cmds_bounded_append(
                    old(w).queue@ + three + despawn_cmds(old(w).player_lasers@),
                    despawn_cmds(old(w).enemies_level_1@),
                );
                crate::world::lemma_cmds_bounded_append(
                    old(w).queue@ + three + despawn_cmds(old(w).player_lasers@) + despawn_cmds(
                        old(w).enemies_level_1@,
                    ),
                    despawn_cmds(old(w).enemies_level_2@),
                );
                crate::world::lemma_cmds_bounded_append(
                    old(w).queue@ + three + despawn_cmds(old(w).player_lasers@) + despawn_cmds(
                        old(w).enemies_level_1@,
                    ) + despawn_cmds(old(w).enemies_level_2@),
                    despawn_cmds(old(w).enemies_level_3@),
                );
                assert(w.queue@ =~= old(w).queue@ + three + despawn_cmds(old(w).player_lasers@)
                    + despawn_cmds(old(w).enemies_level_1@) + despawn_cmds(old(w).enemies_level_2@)
                    + despawn_cmds(old(w).enemies_level_3@));
            }
        },
    }
}

/// Gameplay entities are shown exactly while the game runs.
pub fn update_gameplay(w: &mut World)
    requires
        wf(*old(w)),
    ensures
        wf(*final(w)),
        final(w).gameplay_visible == (old(w).state == GameState::InGame),
        same_store(*old(w), *final(w)),
        same_modes(*old(w), *final(w)),
        same_pending(*old(w), *final(w)),
        same_flags(*old(w), *final(w)),
        same_queue(*old(w), *final(w)),
        same_cues(*old(w), *final(w)),
{
    w.gameplay_visible = w.state == GameState::InGame;
}

/// On entering the not-started state, show the start banner.
pub fn show_start_text(w: &mut World)
    requires
        wf(*old(w)),
    ensures
        wf(*final(w)),
        old(w).state == GameState::NotStarted ==> final(w).store() == (EntStore {
            overlays: old(w).store().overlays.push(OverlayKind::StartText),
            ..old(w).store()
        }),
        old(w).state != GameState::NotStarted ==> final(w).store() == old(w).store(),
        final(w).next_id == old(w).next_id,
        same_modes(*old(w), *final(w)),
        same_pending(*old(w), *final(w)),
        same_flags(*old(w), *final(w)),
        same_queue(*old(w), *final(w)),
        same_cues(*old(w), *final(w)),
        same_vis(*old(w), *final(w)),
{
    if w.state == GameState::NotStarted {
        w.overlays.push(OverlayKind::StartText);
    }
}

/// On leaving the not-started state, remove the start banner.
pub fn clean_start_text(w: &mut World)
    requires
        wf(*old(w)),
    ensures
        wf(*final(w)),
        final(w).store() == (EntStore {
            overlays: crate::world::remove_kind(old(w).store().overlays, OverlayKind::StartText),
            ..old(w).store()
        }),
        final(w).next_id == old(w).next_id,
        same_modes(*old(w), *final(w)),
        same_pending(*old(w), *final(w)),
        same_flags(*old(w), *final(w)),
        same_queue(*old(w), *final(w)),
        same_cues(*old(w), *final(w)),
        same_vis(*old(w), *final(w)),
{
    crate::world::clear_overlays_of(&mut w.overlays, OverlayKind::StartText);
}

/// The start input: from the not-started state it requests level one and
/// the in-game state; anywhere else it is dropped.
pub fn start(w: &mut World, pressed: bool)
    requires
        wf(*old(w)),
    ensures
        wf(*final(w)),
        pressed && old(w).state == GameState::NotStarted ==> final(w).pending_level == Some(
            LevelState::Level1,
        ) && final(w).pending_state == Some(GameState::InGame),
        !(pressed && old(w).state == GameState::NotStarted) ==> same_pending(*old(w), *final(w)),
        same_store(*old(w), *final(w)),
        same_modes(*old(w), *final(w)),
        same_flags(*old(w), *final(w)),
        same_queue(*old(w), *final(w)),
        same_cues(*old(w), *final(w)),
        same_vis(*old(w), *final(w)),
{
    if pressed && w.state == GameState::NotStarted {
        w.pending_level = Some(LevelState::Level1);
        w.pending_state = Some(GameState::InGame);
    }
}

/// The pause input toggles between the running and paused states: pausing
/// shows the pause banner and plays a cue, unpausing removes the banner.
/// In any other state the press is dropped.
pub fn keys(w: &mut World, pause_pressed: bool)
    requires
        wf(*old(w)),
    ensures
        wf(*final(w)),
        !(pause_pressed && (old(w).state == GameState::InGame || old(w).state == GameState::Pause))
            ==> world_unchanged(*old(w), *final(w)),
        pause_pressed && old(w).state == GameState::InGame ==> final(w).pending_state == Some(
            GameState::Pause,
        ) && final(w).queue@ == old(w).queue@.push(
            Command::SpawnOverlay { kind: OverlayKind::PauseBanner },
        ) && final(w).cues@ == old(w).cues@.push(Cue::Pause),
        pause_pressed && old(w).state == GameState::Pause ==> final(w).pending_state == Some(
            GameState::InGame,
        ) && final(w).queue@ == old(w).queue@.push(
            Command::ClearOverlays { kind: OverlayKind::PauseBanner },
        ) && same_cues(*old(w), *final(w)),
        final(w).pending_level == old(w).pending_level,
        same_store(*old(w), *final(w)),
        same_modes(*old(w), *final(w)),
        same_flags(*old(w), *final(w)),
        same_vis(*old(w), *final(w)),
{
    if pause_pressed {
        if w.state == GameState::InGame {
            w.pending_state = Some(GameState::Pause);
            w.queue.push(Command::SpawnOverlay { kind: OverlayKind::PauseBanner });
            w.cues.push(Cue::Pause);
            proof {
                assert forall|i: int| 0 <= i < w.queue@.len() implies cmd_bounded(
                    #[trigger] w.queue@[i],
                ) by {
                    if i < old(w).queue@.len() {
                        assert(w.queue@[i] == old(w).queue@[i]);
                    }
                }
            }
        } else if w.state == GameState::Pause {
            w.pending_state = Some(GameState::InGame);
            w.queue.push(Command::ClearOverlays { kind: OverlayKind::PauseBanner });
            proof {
                assert forall|i: int| 0 <= i < w.queue@.len() implies cmd_bounded(
                    #[trigger] w.queue@[i],
                ) by {
                    if i < old(w).queue@.len() {
                        assert(w.queue@[i] == old(w).queue@[i]);
                    }
                }
            }
        }
    }
}

/// The win check fires while playing level three with a fully created and
/// now empty roster: it requests the win state, shows the banner and plays
/// the cue.
pub fn win_game(w: &mut World)
    requires
        wf(*old(w)),
    ensures
        wf(*final(w)),
        !(old(w).state == GameState::InGame && old(w).level == LevelState::Level3 && old(w).spawned
            && old(w).enemies_level_3@.len() == 0) ==> world_unchanged(*old(w), *final(w)),
        old(w).state == GameState::InGame && old(w).level == LevelState::Level3 && old(w).spawned
            && old(w).enemies_level_3@.len() == 0 ==> final(w).pending_state == Some(GameState::Win)
            && final(w).pending_level == old(w).pending_level && final(w).queue@
            == old(w).queue@.push(Command::SpawnOverlay { kind: OverlayKind::WinBanner })
            && final(w).cues@ == old(w).cues@.push(Cue::Win),
        same_store(*old(w), *final(w)),
        same_modes(*old(w), *final(w)),
        same_flags(*old(w), *final(w)),
        same_vis(*old(w), *final(w)),
{
    if w.state == GameState::InGame && w.level == LevelState::Level3 && w.spawned
        && w.enemies_level_3.len() == 0 {
        w.pending_state = Some(GameState::Win);
        w.queue.push(Command::SpawnOverlay { kind: OverlayKind::WinBanner });
        w.cues.push(Cue::Win);
        proof {
            assert forall|i: int| 0 <= i < w.queue@.len() implies cmd_bounded(
                #[trigger] w.queue@[i],
            ) by {
                if i < old(w).queue@.len() {
                    assert(w.queue@[i] == old(w).queue@[i]);
                }
            }
        }
    }
}

/// Everything the restart path despawns and creates, in emission order:
/// both banners go, then every enemy ship, every enemy projectile and
/// every player projectile; restarting from a lost game also respawns the
/// player at the start position.
pub open spec fn restart_cmds(v: WorldView) -> Seq<Command> {
    seq![
        Command::ClearOverlays { kind: OverlayKind::GameOverBanner },
        Command::ClearOverlays { kind: OverlayKind::WinBanner },
    ] + despawn_cmds(v.enemies_level_1) + despawn_cmds(v.enemies_level_2) + despawn_cmds(
        v.enemies_level_3,
    ) + despawn_cmds(v.enemy_lasers) + despawn_cmds(v.player_lasers) + if v.state
        == GameState::GameOver {
        seq![Command::SpawnPlayer { id: v.next_id, x: 0i64, y: -370_000i64 }]
    } else {
        Seq::empty()
    }
}

/// The restart input, accepted after a loss or a win: it clears both
/// banners, tolerantly despawns every enemy ship and every projectile,
/// resets the fire timer and the spawned flag, respawns the player if the
/// game was lost (after a win the player still exists), and requests
/// level one and the not-started state.
pub fn restart_game(w: &mut World, pressed: bool)
    requires
        wf(*old(w)),
        old(w).next_id < u64::MAX,
    ensures
        wf(*final(w)),
        !(pressed && (old(w).state == GameState::GameOver || old(w).state == GameState::Win))
            ==> world_unchanged(*old(w), *final(w)),
        pressed && (old(w).state == GameState::GameOver || old(w).state == GameState::Win) ==> {
            &&& final(w).queue@ == old(w).queue@ + restart_cmds(old(w)@)
            &&& final(w).fire_timer_ms == 0
            &&& final(w).spawned == false
            &&& final(w).pending_level == Some(LevelState::Level1)
            &&& final(w).pending_state == Some(GameState::NotStarted)
            &&& final(w).next_id == old(w).next_id + (if old(w).state == GameState::GameOver {
                1int
            } else {
                0int
            })
            &&& final(w).store() == old(w).store()
        },
        same_modes(*old(w), *final(w)),
        same_cues(*old(w), *final(w)),
        same_vis(*old(w), *final(w)),
{
    if pressed && (w.state == GameState::GameOver || w.state == GameState::Win) {
        w.queue.push(Command::ClearOverlays { kind: OverlayKind::GameOverBanner });
        w.queue.push(Command::ClearOverlays { kind: OverlayKind::WinBanner });
        let ghost q0 = w.queue@;
        crate::world::push_despawns(&mut w.queue, &w.enemies_level_1);
        crate::world::push_despawns(&mut w.queue, &w.enemies_level_2);
        crate::world::push_despawns(&mut w.queue, &w.enemies_level_3);
        crate::world::push_despawns(&mut w.queue, &w.enemy_lasers);
        crate::world::push_despawns(&mut w.queue, &w.player_lasers);
        w.fire_timer_ms = 0;
        w.spawned = false;
        if w.state == GameState::GameOver {
            w.queue.push(Command::SpawnPlayer { id: w.next_id, x: 0i64, y: -370_000i64 });
            w.next_id = w.next_id + 1;
        }
        w.pending_level = Some(LevelState::Level1);
        w.pending_state = Some(GameState::NotStarted);
        proof {
            let two = seq![
                Command::ClearOverlays { kind: OverlayKind::GameOverBanner },
                Command::ClearOverlays { kind: OverlayKind::WinBanner },
            ];
            assert(q0 =~= old(w).queue@ + two);
            assert(w.queue@ =~= old(w).queue@ + restart_cmds(old(w)@));
            assert forall|i: int| 0 <= i < w.queue@.len() implies cmd_bounded(
                #[trigger] w.queue@[i],
            ) by {
                let r = restart_cmds(old(w)@);
                if i < old(w).queue@.len() {
                    assert(w.queue@[i] == old(w).queue@[i]);
                } else {
                    let k = i - old(w).queue@.len();
                    assert(w.queue@[i] == r[k]);
                    crate::world::lemma_despawn_cmds_bounded(old(w).enemies_level_1@);
                    crate::world::lemma_despawn_cmds_bounded(old(w).enemies_level_2@);
                    crate::world::lemma_despawn_cmds_bounded(old(w).enemies_level_3@);
                    crate::world::lemma_despawn_cmds_bounded(old(w).enemy_lasers@);
                    crate::world::lemma_despawn_cmds_bounded(old(w).player_lasers@);
                }
            }
        }
    }
}

/// Buffer despawns for all player projectiles and all enemy rosters.
fn push_all_despawns(w: &mut World)
    ensures
        final(w).queue@ == old(w).queue@ + despawn_cmds(old(w).player_lasers@) + despawn_cmds(
            old(w).enemies_level_1@,
        ) + despawn_cmds(old(w).enemies_level_2@) + despawn_cmds(old(w).enemies_level_3@),
        same_store(*old(w), *final(w)),
        same_modes(*old(w), *final(w)),
        same_pending(*old(w), *final(w)),
        same_flags(*old(w), *final(w)),
        same_cues(*old(w), *final(w)),
        same_vis(*old(w), *final(w)),
{
    crate::world::push_despawns(&mut w.queue, &w.player_lasers);
    crate::world::push_despawns(&mut w.queue, &w.enemies_level_1);
    crate::world::push_despawns(&mut w.queue, &w.enemies_level_2);
    crate::world::push_despawns(&mut w.queue, &w.enemies_level_3);
}

} // verus!
