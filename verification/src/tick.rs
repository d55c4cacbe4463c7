//! The frame loop: one tick runs every system in the order of the frame
//! model, then applies buffered structural commands and the requested
//! state and level transitions, so no system observes a partially
//! mutated entity set mid-tick.

use vstd::prelude::*;

use crate::game::{game_over_cmds, game_over_trigger, restart_cmds, GameState};
use crate::lasers_enemies::{clash_cmds, clash_cues, volley_cmds};
use crate::lasers_player::{enemy_hit_cmds, enemy_hit_cues};
use crate::levels::{separated, LevelState};
use crate::player::{bordered_player, stepped_facing, stepped_player};
use crate::world::{
    apply_all, moved_lasers, remove_kind, same_cues, same_queue, store_of, wf, Command, Cue,
    Facing, Input, OverlayKind, Ship, World, WorldView, FIRE_PERIOD_MS,
};

verus! {

/// The state that will be active next frame: the requested one, if any.
pub open spec fn target_state(v: WorldView) -> GameState {
    match v.pending_state {
        Some(s) => s,
        None => v.state,
    }
}

/// The level that will be active next frame: the requested one, if any.
pub open spec fn target_level(v: WorldView) -> LevelState {
    match v.pending_level {
        Some(l) => l,
        None => v.level,
    }
}

/// The overlays after the state transition is applied: leaving the
/// not-started state removes the start banner, entering it shows one.
/// A request for the already active state runs no hooks.
pub open spec fn overlays_after(v: WorldView) -> Seq<OverlayKind> {
    match v.pending_state {
        None => v.overlays,
        Some(s) => if s == v.state {
            v.overlays
        } else {
            let a = if v.state == GameState::NotStarted {
                remove_kind(v.overlays, OverlayKind::StartText)
            } else {
                v.overlays
            };
            if s == GameState::NotStarted {
                a.push(OverlayKind::StartText)
            } else {
                a
            }
        },
    }
}

/// How many ships a level's roster holds when freshly loaded.
pub open spec fn wave_count(l: LevelState) -> int {
    match l {
        LevelState::Level1 => 7,
        LevelState::Level2 => 15,
        LevelState::Level3 => 25,
    }
}

/// The lower edge of a level's spawn band along y.
pub open spec fn wave_y_lo(l: LevelState) -> int {
    match l {
        LevelState::Level1 => 100_000,
        LevelState::Level2 => 50_000,
        LevelState::Level3 => 0,
    }
}

/// A freshly loaded roster: the configured count of ships, x in
/// [-380, 380) units and y in the level's band, with consecutive ids.
pub open spec fn fresh_wave(s: Seq<Ship>, l: LevelState, base: u64) -> bool {
    &&& s.len() == wave_count(l)
    &&& forall|i: int|
        0 <= i < s.len() ==> -380_000 <= (#[trigger] s[i]).x < 380_000 && wave_y_lo(l) <= s[i].y
            < 250_000 && s[i].id == base + i
}

/// Apply the requested transitions, between frames: first the game
/// state, with the start-banner hooks; then the level, which always
/// unloads the level being left and loads the one being entered, so a
/// restart that lands on the already active level still rebuilds its
/// roster.
pub fn apply_transitions(w: &mut World)
    requires
        wf(*old(w)),
        old(w).next_id <= u64::MAX - 25,
    ensures
        wf(*final(w)),
        final(w).pending_state == None::<GameState>,
        final(w).pending_level == None::<LevelState>,
        final(w).state == target_state(old(w)@),
        final(w).level == target_level(old(w)@),
        final(w).overlays@ == overlays_after(old(w)@),
        final(w).player == old(w).player,
        final(w).player_facing == old(w).player_facing,
        final(w).player_lasers@ == old(w).player_lasers@,
        final(w).enemy_lasers@ == old(w).enemy_lasers@,
        final(w).fire_timer_ms == old(w).fire_timer_ms,
        same_queue(*old(w), *final(w)),
        same_cues(*old(w), *final(w)),
        final(w).gameplay_visible == old(w).gameplay_visible,
        old(w).pending_level is None ==> final(w).enemies_level_1@ == old(w).enemies_level_1@
            && final(w).enemies_level_2@ == old(w).enemies_level_2@ && final(w).enemies_level_3@
            == old(w).enemies_level_3@ && final(w).spawned == old(w).spawned && final(w).next_id
            == old(w).next_id,
        old(w).pending_level matches Some(lv) ==> final(w).spawned == true && final(w).next_id
            == old(w).next_id + wave_count(lv) && (lv == LevelState::Level1 ==> fresh_wave(
            final(w).enemies_level_1@,
            lv,
            old(w).next_id,
        )) && (lv == LevelState::Level2 ==> fresh_wave(
            final(w).enemies_level_2@,
            lv,
            old(w).next_id,
        )) && (lv == LevelState::Level3 ==> fresh_wave(
            final(w).enemies_level_3@,
            lv,
            old(w).next_id,
        )) && (lv != LevelState::Level1 ==> final(w).enemies_level_1@.len() == 0) && (lv
            != LevelState::Level2 ==> final(w).enemies_level_2@.len() == 0) && (lv
            != LevelState::Level3 ==> final(w).enemies_level_3@.len() == 0),
{
    let ps = w.pending_state;
    w.pending_state = None;
    match ps {
        Some(s) => {
            if !(s == w.state) {
                if w.state == GameState::NotStarted {
                    crate::game::clean_start_text(w);
                }
                w.state = s;
                crate::game::show_start_text(w);
            }
        },
        None => {},
    }
    let pl = w.pending_level;
    w.pending_level = None;
    match pl {
        Some(lv) => {
            match w.level {
                LevelState::Level1 => crate::levels::unload_level_1(w),
                LevelState::Level2 => crate::levels::unload_level_2(w),
                LevelState::Level3 => crate::levels::unload_level_3(w),
            }
            w.level = lv;
            match lv {
                LevelState::Level1 => crate::levels::load_level_1(w),
                LevelState::Level2 => crate::levels::load_level_2(w),
                LevelState::Level3 => crate::levels::load_level_3(w),
            }
        },
        None => {},
    }
}

impl World {
    /// The world at startup: not started, level one's roster already
    /// loaded and hidden, the player at the start position, and the
    /// start banner shown.
    pub fn new() -> (w: World)
        ensures
            wf(w),
            w.state == GameState::NotStarted,
            w.level == LevelState::Level1,
            w.pending_state == None::<GameState>,
            w.pending_level == None::<LevelState>,
            w.player == Some(Ship { id: 0u64, x: 0i64, y: -370_000i64 }),
            w.player_facing == Facing::Forward,
            fresh_wave(w.enemies_level_1@, LevelState::Level1, 1u64),
            w.enemies_level_2@.len() == 0,
            w.enemies_level_3@.len() == 0,
            w.player_lasers@.len() == 0,
            w.enemy_lasers@.len() == 0,
            w.overlays@ == seq![OverlayKind::StartText],
            w.spawned == true,
            w.fire_timer_ms == 0,
            w.next_id == 8,
            w.queue@.len() == 0,
            w.cues@.len() == 0,
            w.gameplay_visible == false,
    {
        let mut w = World {
            state: GameState::NotStarted,
            level: LevelState::Level1,
            pending_state: None,
            pending_level: None,
            player: None,
            player_facing: Facing::Forward,
            enemies_level_1: Vec::new(),
            enemies_level_2: Vec::new(),
            enemies_level_3: Vec::new(),
            player_lasers: Vec::new(),
            enemy_lasers: Vec::new(),
            overlays: Vec::new(),
            spawned: false,
            fire_timer_ms: 0,
            next_id: 0,
            queue: Vec::new(),
            cues: Vec::new(),
            gameplay_visible: false,
        };
        crate::player::load_players(&mut w);
        crate::game::show_start_text(&mut w);
        crate::levels::load_level_1(&mut w);
        proof {
            assert(w.overlays@ =~= seq![OverlayKind::StartText]);
        }
        w
    }
}


/// The pause toggle's effect on the view; mirrors `keys`.
pub open spec fn keys_step(v: WorldView, pause: bool) -> WorldView {
    if pause && v.state == GameState::InGame {
        WorldView {
            pending_state: Some(GameState::Pause),
            queue: v.queue.push(Command::SpawnOverlay { kind: OverlayKind::PauseBanner }),
            cues: v.cues.push(Cue::Pause),
            ..v
        }
    } else if pause && v.state == GameState::Pause {
        WorldView {
            pending_state: Some(GameState::InGame),
            queue: v.queue.push(Command::ClearOverlays { kind: OverlayKind::PauseBanner }),
            ..v
        }
    } else {
        v
    }
}

/// The start input's effect on the view; mirrors `start`.
pub open spec fn start_step(v: WorldView, pressed: bool) -> WorldView {
    if pressed && v.state == GameState::NotStarted {
        WorldView {
            pending_level: Some(LevelState::Level1),
            pending_state: Some(GameState::InGame),
            ..v
        }
    } else {
        v
    }
}

/// The restart input's effect on the view; mirrors `restart_game`.
pub open spec fn restart_step(v: WorldView, pressed: bool) -> WorldView {
    if pressed && (v.state == GameState::GameOver || v.state == GameState::Win) {
        WorldView {
            queue: v.queue + restart_cmds(v),
            fire_timer_ms: 0u32,
            spawned: false,
            next_id: if v.state == GameState::GameOver {
                (v.next_id + 1) as u64
            } else {
                v.next_id
            },
            pending_level: Some(LevelState::Level1),
            pending_state: Some(GameState::NotStarted),
            ..v
        }
    } else {
        v
    }
}

/// The step inputs' effect on the view; mirrors `keys_for_players`.
pub open spec fn player_step(v: WorldView, left: bool, right: bool) -> WorldView {
    if v.state == GameState::InGame && v.player is Some {
        WorldView {
            player: Some(stepped_player(v.player.unwrap(), left, right)),
            player_facing: stepped_facing(v.player_facing, left, right),
            ..v
        }
    } else {
        v
    }
}

/// The border clamp's effect on the view; mirrors `borders_for_player`.
pub open spec fn borders_step(v: WorldView) -> WorldView {
    if v.state == GameState::InGame && v.player is Some {
        WorldView { player: Some(bordered_player(v.player.unwrap())), ..v }
    } else {
        v
    }
}

/// The fire input's effect on the view; mirrors `lasers_player`.
pub open spec fn fire_step(v: WorldView, pressed: bool) -> WorldView {
    if pressed && v.state == GameState::InGame {
        let v1 = match v.player {
            Some(p) => WorldView {
                queue: v.queue.push(
                    Command::SpawnPlayerLaser { id: v.next_id, x: p.x, y: p.y },
                ),
                next_id: (v.next_id + 1) as u64,
                ..v
            },
            None => v,
        };
        WorldView { cues: v1.cues.push(Cue::PlayerShot), ..v1 }
    } else {
        v
    }
}

/// Player projectile motion on the view; mirrors `move_lasers`.
pub open spec fn move_lasers_step(v: WorldView, dt_ms: u32) -> WorldView {
    if v.state == GameState::InGame {
        WorldView { player_lasers: moved_lasers(v.player_lasers, 450 * dt_ms as int), ..v }
    } else {
        v
    }
}

/// Enemy projectile motion on the view; mirrors `move_lasers_enemies`.
pub open spec fn move_enemy_lasers_step(v: WorldView, dt_ms: u32) -> WorldView {
    if v.state == GameState::InGame {
        WorldView { enemy_lasers: moved_lasers(v.enemy_lasers, -365 * dt_ms as int), ..v }
    } else {
        v
    }
}

/// Wave one's separation pass on the view.
pub open spec fn separation_step_1(v: WorldView) -> WorldView {
    if v.state == GameState::InGame && v.level == LevelState::Level1 {
        WorldView { enemies_level_1: separated(v.enemies_level_1, 100_000), ..v }
    } else {
        v
    }
}

/// Wave two's separation pass on the view.
pub open spec fn separation_step_2(v: WorldView) -> WorldView {
    if v.state == GameState::InGame && v.level == LevelState::Level2 {
        WorldView { enemies_level_2: separated(v.enemies_level_2, 80_000), ..v }
    } else {
        v
    }
}

/// Wave three's separation pass on the view.
pub open spec fn separation_step_3(v: WorldView) -> WorldView {
    if v.state == GameState::InGame && v.level == LevelState::Level3 {
        WorldView { enemies_level_3: separated(v.enemies_level_3, 60_000), ..v }
    } else {
        v
    }
}

/// The fire timer's effect on the view; mirrors `enemies_shoot`.
pub open spec fn enemies_shoot_step(v: WorldView, dt_ms: u32) -> WorldView {
    if v.state != GameState::InGame {
        v
    } else {
        let total = v.fire_timer_ms + dt_ms;
        if total < FIRE_PERIOD_MS {
            WorldView { fire_timer_ms: total as u32, ..v }
        } else {
            let es = v.enemies_level_1 + v.enemies_level_2 + v.enemies_level_3;
            WorldView {
                fire_timer_ms: (total % (FIRE_PERIOD_MS as int)) as u32,
                queue: v.queue + volley_cmds(es, v.next_id),
                next_id: (v.next_id + es.len()) as u64,
                cues: if es.len() > 0 {
                    v.cues.push(Cue::EnemyVolley)
                } else {
                    v.cues
                },
                ..v
            }
        }
    }
}

/// The projectile-versus-ship pass on the view; mirrors
/// `collision_lasers_player_with_enemies`.
pub open spec fn collision_enemies_step(v: WorldView) -> WorldView {
    if v.state == GameState::InGame {
        let es = v.enemies_level_1 + v.enemies_level_2 + v.enemies_level_3;
        WorldView {
            queue: v.queue + enemy_hit_cmds(v.player_lasers, es),
            cues: v.cues + enemy_hit_cues(v.player_lasers, es),
            ..v
        }
    } else {
        v
    }
}

/// The projectile-versus-projectile pass on the view; mirrors
/// `collision_lasers_player_with_lasers_enemies`.
pub open spec fn clash_step(v: WorldView) -> WorldView {
    if v.state == GameState::InGame {
        WorldView {
            queue: v.queue + clash_cmds(v.player_lasers, v.enemy_lasers),
            cues: v.cues + clash_cues(v.player_lasers, v.enemy_lasers),
            ..v
        }
    } else {
        v
    }
}

/// The game-over pass on the view; mirrors `game_over`.
pub open spec fn game_over_step(v: WorldView) -> WorldView {
    if game_over_trigger(v) {
        WorldView {
            pending_state: Some(GameState::GameOver),
            queue: v.queue + game_over_cmds(v),
            cues: v.cues.push(Cue::GameOver),
            ..v
        }
    } else {
        v
    }
}

/// Wave one's level-complete check on the view.
pub open spec fn check_level_1_step(v: WorldView) -> WorldView {
    if v.state == GameState::InGame && v.level == LevelState::Level1 && v.spawned
        && v.enemies_level_1.len() == 0 {
        WorldView { pending_level: Some(LevelState::Level2), ..v }
    } else {
        v
    }
}

/// Wave two's level-complete check on the view.
pub open spec fn check_level_2_step(v: WorldView) -> WorldView {
    if v.state == GameState::InGame && v.level == LevelState::Level2 && v.spawned
        && v.enemies_level_2.len() == 0 {
        WorldView { pending_level: Some(LevelState::Level3), ..v }
    } else {
        v
    }
}

/// The win check on the view; mirrors `win_game`.
pub open spec fn win_step(v: WorldView) -> WorldView {
    if v.state == GameState::InGame && v.level == LevelState::Level3 && v.spawned
        && v.enemies_level_3.len() == 0 {
        WorldView {
            pending_state: Some(GameState::Win),
            queue: v.queue.push(Command::SpawnOverlay { kind: OverlayKind::WinBanner }),
            cues: v.cues.push(Cue::Win),
            ..v
        }
    } else {
        v
    }
}

/// Visibility derivation on the view; mirrors `update_gameplay`.
pub open spec fn visibility_step(v: WorldView) -> WorldView {
    WorldView { gameplay_visible: v.state == GameState::InGame, ..v }
}

/// The command application point on the view; mirrors `apply_commands`.
pub open spec fn apply_step(v: WorldView) -> WorldView {
    let s = apply_all(store_of(v), v.queue);
    WorldView {
        player: s.player,
        player_facing: s.player_facing,
        enemies_level_1: s.enemies_level_1,
        enemies_level_2: s.enemies_level_2,
        enemies_level_3: s.enemies_level_3,
        player_lasers: s.player_lasers,
        enemy_lasers: s.enemy_lasers,
        overlays: s.overlays,
        queue: Seq::<Command>::empty(),
        ..v
    }
}

/// Every system applied in the frame order, after the cue list is
/// cleared; the command application point and the transition application
/// follow.
pub open spec fn frame_systems(v: WorldView, input: Input, dt_ms: u32) -> WorldView {
    let v0 = WorldView { cues: Seq::<Cue>::empty(), ..v };
    let v1 = keys_step(v0, input.pause);
    let v2 = start_step(v1, input.start);
    let v3 = restart_step(v2, input.restart);
    let v4 = player_step(v3, input.left, input.right);
    let v5 = borders_step(v4);
    let v6 = fire_step(v5, input.fire);
    let v7 = move_lasers_step(v6, dt_ms);
    let v8 = move_enemy_lasers_step(v7, dt_ms);
    let v9 = separation_step_1(v8);
    let v10 = separation_step_2(v9);
    let v11 = separation_step_3(v10);
    let v12 = enemies_shoot_step(v11, dt_ms);
    let v13 = collision_enemies_step(v12);
    let v14 = clash_step(v13);
    let v15 = game_over_step(v14);
    let v16 = check_level_1_step(v15);
    let v17 = check_level_2_step(v16);
    let v18 = win_step(v17);
    visibility_step(v18)
}

/// The deterministic part of one whole frame: the systems, then the
/// command application point.
pub open spec fn tick_mid(v: WorldView, input: Input, dt_ms: u32) -> WorldView {
    apply_step(frame_systems(v, input, dt_ms))
}

/// One frame's full effect. `tick_mid` fixes everything up to and
/// including the command application point; the transition application
/// that follows is stated relationally, because entering a level draws
/// its roster at random positions (count, bands and consecutive ids are
/// fixed; the coordinates are not).
pub open spec fn tick_frame(pre: WorldView, post: WorldView, input: Input, dt_ms: u32) -> bool {
    let m = tick_mid(pre, input, dt_ms);
    &&& post.pending_state is None
    &&& post.pending_level is None
    &&& post.state == target_state(m)
    &&& post.level == target_level(m)
    &&& post.overlays == overlays_after(m)
    &&& post.player == m.player
    &&& post.player_facing == m.player_facing
    &&& post.player_lasers == m.player_lasers
    &&& post.enemy_lasers == m.enemy_lasers
    &&& post.queue == Seq::<Command>::empty()
    &&& post.cues == m.cues
    &&& post.gameplay_visible == m.gameplay_visible
    &&& post.fire_timer_ms == m.fire_timer_ms
    &&& (m.pending_level is None ==> post.enemies_level_1 == m.enemies_level_1
        && post.enemies_level_2 == m.enemies_level_2 && post.enemies_level_3 == m.enemies_level_3
        && post.spawned == m.spawned && post.next_id == m.next_id)
    &&& (m.pending_level matches Some(lv) ==> post.spawned == true && post.next_id == m.next_id
        + wave_count(lv) && (lv == LevelState::Level1 ==> fresh_wave(
        post.enemies_level_1,
        lv,
        m.next_id,
    )) && (lv == LevelState::Level2 ==> fresh_wave(post.enemies_level_2, lv, m.next_id)) && (lv
        == LevelState::Level3 ==> fresh_wave(post.enemies_level_3, lv, m.next_id)) && (lv
        != LevelState::Level1 ==> post.enemies_level_1.len() == 0) && (lv != LevelState::Level2
        ==> post.enemies_level_2.len() == 0) && (lv != LevelState::Level3
        ==> post.enemies_level_3.len() == 0))
}

/// Run every system of one frame in the frame order, mirroring
/// `frame_systems` step for step.
#[verifier::rlimit(100)]
fn run_systems(w: &mut World, input: Input, dt_ms: u32)
    requires
        wf(*old(w)),
        old(w).next_id <= u64::MAX - 512,
    ensures
        wf(*final(w)),
        final(w)@ == frame_systems(old(w)@, input, dt_ms),
        final(w).next_id <= old(w).next_id + 128,
{
    w.cues = Vec::new();
    let ghost s0 = w@;
    crate::game::keys(w, input.pause);
    let ghost s1 = w@;
    proof {
        assert(s0 =~= (WorldView { cues: Seq::<Cue>::empty(), ..old(w)@ }));
        assert(s1 =~= keys_step(s0, input.pause));
    }
    crate::game::start(w, input.start);
    let ghost s2 = w@;
    proof {
        assert(s2 =~= start_step(s1, input.start));
    }
    crate::game::restart_game(w, input.restart);
    let ghost s3 = w@;
    proof {
        assert(s3 =~= restart_step(s2, input.restart));
    }
    crate::player::keys_for_players(w, input.left, input.right);
    let ghost s4 = w@;
    proof {
        assert(s4 =~= player_step(s3, input.left, input.right));
    }
    crate::player::borders_for_player(w);
    let ghost s5 = w@;
    proof {
        assert(s5 =~= borders_step(s4));
    }
    crate::lasers_player::lasers_player(w, input.fire);
    let ghost s6 = w@;
    proof {
        assert(s6 =~= fire_step(s5, input.fire));
    }
    crate::lasers_player::move_lasers(w, dt_ms);
    let ghost s7 = w@;
    proof {
        assert(s7 =~= move_lasers_step(s6, dt_ms));
    }
    crate::lasers_enemies::move_lasers_enemies(w, dt_ms);
    let ghost s8 = w@;
    proof {
        assert(s8 =~= move_enemy_lasers_step(s7, dt_ms));
    }
    crate::levels::distance_between_enemies_in_level_1(w);
    let ghost s9 = w@;
    proof {
        assert(s9 =~= separation_step_1(s8));
    }
    crate::levels::distance_between_enemies_in_level_2(w);
    let ghost s10 = w@;
    proof {
        assert(s10 =~= separation_step_2(s9));
    }
    crate::levels::distance_between_enemies_in_level_3(w);
    let ghost s11 = w@;
    proof {
        assert(s11 =~= separation_step_3(s10));
    }
    crate::lasers_enemies::enemies_shoot(w, dt_ms);
    let ghost s12 = w@;
    proof {
        assert(s12 =~= enemies_shoot_step(s11, dt_ms));
    }
    crate::lasers_player::collision_lasers_player_with_enemies(w);
    let ghost s13 = w@;
    proof {
        assert(s13 =~= collision_enemies_step(s12));
    }
    crate::lasers_enemies::collision_lasers_player_with_lasers_enemies(w);
    let ghost s14 = w@;
    proof {
        assert(s14 =~= clash_step(s13));
    }
    crate::game::game_over(w);
    let ghost s15 = w@;
    proof {
        assert(s15 =~= game_over_step(s14));
    }
    crate::levels::check_level_1_complete(w);
    let ghost s16 = w@;
    proof {
        assert(s16 =~= check_level_1_step(s15));
    }
    crate::levels::check_level_2_complete(w);
    let ghost s17 = w@;
    proof {
        assert(s17 =~= check_level_2_step(s16));
    }
    crate::game::win_game(w);
    let ghost s18 = w@;
    proof {
        assert(s18 =~= win_step(s17));
    }
    crate::game::update_gameplay(w);
    proof {
        assert(w@ =~= visibility_step(s18));
        assert(w@ == frame_systems(old(w)@, input, dt_ms));
    }
}

/// One frame of the core loop, in the order of the frame model: read the
/// edge-triggered inputs, run the movement, separation, fire and
/// collision systems while in game, evaluate the level-complete and win
/// checks, derive visibility, then apply the buffered structural
/// commands and the requested transitions. The whole effect is fixed by
/// `tick_frame`. Cues collect in `cues`, cleared at the start of each
/// tick for the shell to read after it.
#[verifier::rlimit(100)]
pub fn tick(w: &mut World, input: Input, dt_ms: u32)
    requires
        wf(*old(w)),
        old(w).next_id <= u64::MAX - 512,
    ensures
        wf(*final(w)),
        tick_frame(old(w)@, final(w)@, input, dt_ms),
        final(w).pending_state == None::<GameState>,
        final(w).pending_level == None::<LevelState>,
        final(w).queue@.len() == 0,
        final(w).next_id <= old(w).next_id + 512,
{
    run_systems(w, input, dt_ms);
    let ghost pre_apply = w@;
    crate::world::apply_commands(w);
    proof {
        assert(w@ =~= apply_step(pre_apply));
        assert(w@ == tick_mid(old(w)@, input, dt_ms));
    }
    apply_transitions(w);
}

/// Laws of one whole frame, read off the frame contract: visibility
/// follows the state the frame saw; the start input enters the game at
/// level one; a fully spawned and cleared level one advances to level
/// two; a fully spawned and cleared level three wins; a restart after a
/// loss leaves a live player, a zeroed fire timer and the not-started
/// state at level one; a restart after a win resets the same way.
pub proof fn lemma_tick_scenarios(pre: WorldView, post: WorldView, input: Input, dt_ms: u32)
    requires
        tick_frame(pre, post, input, dt_ms),
    ensures
        post.gameplay_visible == (pre.state == GameState::InGame),
        input.start && pre.state == GameState::NotStarted ==> post.state == GameState::InGame
            && post.level == LevelState::Level1 && post.spawned,
        pre.state == GameState::InGame && pre.level == LevelState::Level1 && pre.spawned
            && pre.enemies_level_1.len() == 0 ==> post.level == LevelState::Level2
            && post.enemies_level_2.len() == 15 && post.spawned,
        pre.state == GameState::InGame && pre.level == LevelState::Level3 && pre.spawned
            && pre.enemies_level_3.len() == 0 ==> post.state == GameState::Win,
        input.restart && pre.state == GameState::GameOver && pre.queue.len() == 0 ==> post.player
            is Some && post.state == GameState::NotStarted && post.level == LevelState::Level1
            && post.fire_timer_ms == 0,
        input.restart && pre.state == GameState::Win && pre.queue.len() == 0 ==> post.state
            == GameState::NotStarted && post.level == LevelState::Level1 && post.fire_timer_ms
            == 0,
{
    let s = frame_systems(pre, input, dt_ms);
    let m = tick_mid(pre, input, dt_ms);
    assert(m == apply_step(s));
    if input.restart && pre.state == GameState::GameOver && pre.queue.len() == 0 {
        let v0 = WorldView { cues: Seq::<Cue>::empty(), ..pre };
        assert(s.queue =~= restart_cmds(v0));
        let sp = Command::SpawnPlayer { id: pre.next_id, x: 0i64, y: -370_000i64 };
        assert(s.queue.len() > 0);
        assert(s.queue.last() == sp);
        crate::world::lemma_apply_ends_with_player_spawn(store_of(s), s.queue);
        assert(m.player is Some);
    }
}

} // verus!
