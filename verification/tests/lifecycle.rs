//! The dual state machine over whole frames: starting, pausing, losing,
//! winning, restarting, and the idempotence of tolerant despawn.

use space_shooter::game::{game_over, keys, restart_game, start, win_game, GameState};
use space_shooter::levels::LevelState;
use space_shooter::tick::{apply_transitions, tick};
use space_shooter::world::{apply_commands, Command, Cue, Input, OverlayKind, Ship, World};

fn no_input() -> Input {
    Input { start: false, pause: false, restart: false, fire: false, left: false, right: false }
}

#[test]
fn start_input_enters_game_at_level_1() {
    let mut w = World::new();
    assert_eq!(w.state, GameState::NotStarted);
    let input = Input { start: true, ..no_input() };
    tick(&mut w, input, 16);
    assert_eq!(w.state, GameState::InGame);
    assert_eq!(w.level, LevelState::Level1);
    assert_eq!(w.enemies_level_1.len(), 7);
    assert!(w.spawned);
    // the start banner is gone once the game starts
    assert!(w.overlays.is_empty());
    // visibility derives from the state the frame saw; it catches up on
    // the next tick, after the transition has been applied
    assert!(!w.gameplay_visible);
    tick(&mut w, no_input(), 16);
    assert!(w.gameplay_visible);
}

#[test]
fn start_input_ignored_mid_game() {
    let mut w = World::new();
    w.state = GameState::InGame;
    start(&mut w, true);
    assert_eq!(w.pending_state, None);
    assert_eq!(w.pending_level, None);
}

#[test]
fn cleared_level_1_advances_to_level_2() {
    let mut w = World::new();
    w.state = GameState::InGame;
    w.enemies_level_1.clear();
    let input = no_input();
    tick(&mut w, input, 16);
    assert_eq!(w.level, LevelState::Level2);
    assert_eq!(w.enemies_level_1.len(), 0);
    assert_eq!(w.enemies_level_2.len(), 15);
    assert!(w.spawned);
}

#[test]
fn cleared_level_3_wins_not_level_completes() {
    let mut w = World::new();
    w.state = GameState::InGame;
    w.overlays.clear();
    w.enemies_level_1.clear();
    w.level = LevelState::Level3;
    win_game(&mut w);
    assert_eq!(w.pending_state, Some(GameState::Win));
    assert_eq!(w.pending_level, None);
    assert_eq!(w.cues, vec![Cue::Win]);
    apply_commands(&mut w);
    assert_eq!(w.overlays, vec![OverlayKind::WinBanner]);
    apply_transitions(&mut w);
    assert_eq!(w.state, GameState::Win);
    assert_eq!(w.level, LevelState::Level3);
}

#[test]
fn win_check_blocked_before_spawn_finishes() {
    let mut w = World::new();
    w.state = GameState::InGame;
    w.enemies_level_1.clear();
    w.level = LevelState::Level3;
    w.spawned = false;
    win_game(&mut w);
    assert_eq!(w.pending_state, None);
}

#[test]
fn player_hit_triggers_game_over_once() {
    let mut w = World::new();
    w.state = GameState::InGame;
    w.overlays.clear();
    w.player_lasers = vec![Ship { id: 200, x: 0, y: 0 }];
    // two projectiles hit the player in the same tick
    w.enemy_lasers = vec![
        Ship { id: 300, x: 5_000, y: -360_000 },
        Ship { id: 301, x: 0, y: -370_000 },
    ];
    game_over(&mut w);
    assert_eq!(w.pending_state, Some(GameState::GameOver));
    assert_eq!(w.cues, vec![Cue::GameOver]);
    // exactly one banner is spawned for the double hit
    let banners = w
        .queue
        .iter()
        .filter(|c| matches!(c, Command::SpawnOverlay { kind: OverlayKind::GameOverBanner }))
        .count();
    assert_eq!(banners, 1);
    apply_commands(&mut w);
    assert_eq!(w.overlays, vec![OverlayKind::GameOverBanner]);
    assert!(w.player.is_none());
    assert!(w.player_lasers.is_empty());
    assert!(w.enemies_level_1.is_empty());
    // only the first hitting projectile is despawned
    assert_eq!(w.enemy_lasers, vec![Ship { id: 301, x: 0, y: -370_000 }]);
    apply_transitions(&mut w);
    assert_eq!(w.state, GameState::GameOver);
}

#[test]
fn no_game_over_without_contact() {
    let mut w = World::new();
    w.state = GameState::InGame;
    w.enemy_lasers = vec![Ship { id: 300, x: 25_000, y: -370_000 }];
    game_over(&mut w);
    assert_eq!(w.pending_state, None);
    assert!(w.queue.is_empty());
}

#[test]
fn restart_from_game_over_respawns_player() {
    let mut w = World::new();
    w.state = GameState::GameOver;
    w.player = None;
    w.overlays = vec![OverlayKind::GameOverBanner];
    w.enemy_lasers = vec![Ship { id: 300, x: 0, y: 0 }];
    w.fire_timer_ms = 1_200;
    w.spawned = true;
    restart_game(&mut w, true);
    assert_eq!(w.fire_timer_ms, 0);
    assert!(!w.spawned);
    apply_commands(&mut w);
    // the player entity exists again, at the start position
    let p = w.player.unwrap();
    assert_eq!((p.x, p.y), (0, -370_000));
    assert!(w.overlays.is_empty());
    assert!(w.enemy_lasers.is_empty());
    apply_transitions(&mut w);
    assert_eq!(w.state, GameState::NotStarted);
    assert_eq!(w.level, LevelState::Level1);
    // the start banner is back
    assert_eq!(w.overlays, vec![OverlayKind::StartText]);
}

#[test]
fn restart_from_win_keeps_existing_player() {
    let mut w = World::new();
    w.state = GameState::Win;
    w.overlays = vec![OverlayKind::WinBanner];
    let before = w.player.unwrap();
    restart_game(&mut w, true);
    // no respawn command: the player was never destroyed
    assert!(w.queue.iter().all(|c| !matches!(c, Command::SpawnPlayer { .. })));
    assert_eq!(w.fire_timer_ms, 0);
    assert!(!w.spawned);
    apply_commands(&mut w);
    assert_eq!(w.player.unwrap(), before);
    apply_transitions(&mut w);
    assert_eq!(w.state, GameState::NotStarted);
    assert_eq!(w.level, LevelState::Level1);
}

#[test]
fn restart_ignored_mid_game() {
    let mut w = World::new();
    w.state = GameState::InGame;
    restart_game(&mut w, true);
    assert_eq!(w.pending_state, None);
    assert!(w.queue.is_empty());
}

#[test]
fn despawn_same_id_twice_is_a_safe_no_op() {
    let mut w = World::new();
    let victim = w.enemies_level_1[3].id;
    w.queue.push(Command::Despawn { id: victim });
    apply_commands(&mut w);
    assert_eq!(w.enemies_level_1.len(), 6);
    assert!(w.enemies_level_1.iter().all(|e| e.id != victim));
    let roster = w.enemies_level_1.clone();
    let player = w.player;
    // the same id despawned twice more in one tick: both are no-ops
    w.queue.push(Command::Despawn { id: victim });
    w.queue.push(Command::Despawn { id: victim });
    apply_commands(&mut w);
    assert_eq!(w.enemies_level_1, roster);
    assert_eq!(w.player, player);
    assert!(w.player_lasers.is_empty());
    assert!(w.enemy_lasers.is_empty());
}

#[test]
fn despawn_of_absent_id_changes_nothing() {
    let mut w = World::new();
    let before = w.enemies_level_1.clone();
    w.queue.push(Command::Despawn { id: 9_999 });
    apply_commands(&mut w);
    assert_eq!(w.enemies_level_1, before);
    assert!(w.player.is_some());
}

#[test]
fn pause_toggles_with_banner_and_cue() {
    let mut w = World::new();
    w.state = GameState::InGame;
    w.overlays.clear();
    keys(&mut w, true);
    assert_eq!(w.pending_state, Some(GameState::Pause));
    assert_eq!(w.cues, vec![Cue::Pause]);
    apply_commands(&mut w);
    assert_eq!(w.overlays, vec![OverlayKind::PauseBanner]);
    apply_transitions(&mut w);
    assert_eq!(w.state, GameState::Pause);
    keys(&mut w, true);
    assert_eq!(w.pending_state, Some(GameState::InGame));
    apply_commands(&mut w);
    assert!(w.overlays.is_empty());
    apply_transitions(&mut w);
    assert_eq!(w.state, GameState::InGame);
}

#[test]
fn pause_ignored_when_not_started() {
    let mut w = World::new();
    keys(&mut w, true);
    assert_eq!(w.pending_state, None);
    assert!(w.queue.is_empty());
}

#[test]
fn entities_frozen_while_paused() {
    let mut w = World::new();
    w.state = GameState::Pause;
    w.enemy_lasers = vec![Ship { id: 300, x: 0, y: 0 }];
    let snapshot = w.enemies_level_1.clone();
    tick(&mut w, no_input(), 16);
    assert_eq!(w.enemy_lasers[0].y, 0);
    assert_eq!(w.enemies_level_1, snapshot);
    assert_eq!(w.fire_timer_ms, 0);
    assert!(!w.gameplay_visible);
}

#[test]
fn visibility_follows_state_over_ticks() {
    let mut w = World::new();
    tick(&mut w, no_input(), 16);
    assert!(!w.gameplay_visible);
    w.state = GameState::InGame;
    tick(&mut w, no_input(), 16);
    assert!(w.gameplay_visible);
}

#[test]
fn full_game_to_win_and_restart() {
    let mut w = World::new();
    tick(&mut w, Input { start: true, ..no_input() }, 16);
    assert_eq!((w.state, w.level), (GameState::InGame, LevelState::Level1));
    w.enemies_level_1.clear();
    tick(&mut w, no_input(), 16);
    assert_eq!(w.level, LevelState::Level2);
    assert_eq!(w.enemies_level_2.len(), 15);
    w.enemies_level_2.clear();
    tick(&mut w, no_input(), 16);
    assert_eq!(w.level, LevelState::Level3);
    assert_eq!(w.enemies_level_3.len(), 25);
    w.enemies_level_3.clear();
    tick(&mut w, no_input(), 16);
    assert_eq!(w.state, GameState::Win);
    assert_eq!(w.overlays, vec![OverlayKind::WinBanner]);
    tick(&mut w, Input { restart: true, ..no_input() }, 16);
    assert_eq!((w.state, w.level), (GameState::NotStarted, LevelState::Level1));
    assert!(w.player.is_some());
    assert_eq!(w.fire_timer_ms, 0);
    assert_eq!(w.overlays, vec![OverlayKind::StartText]);
}

#[test]
fn fired_shot_reaches_and_kills_enemy() {
    let mut w = World::new();
    w.state = GameState::InGame;
    w.overlays.clear();
    w.enemies_level_1 = vec![Ship { id: 100, x: 0, y: 0 }];
    // fire once; the shot appears at the player (0, -370) at the end of
    // the fire frame, then rises 7.2 units per 16 ms frame, entering the
    // enemy's hit band above y = 0 on its 52nd movement frame
    tick(&mut w, Input { fire: true, ..no_input() }, 16);
    assert_eq!(w.player_lasers.len(), 1);
    for _ in 0..52 {
        tick(&mut w, no_input(), 16);
    }
    assert_eq!(w.level, LevelState::Level1);
    assert!(w.enemies_level_1.is_empty());
    assert!(w.player_lasers.is_empty());
    assert_eq!(w.cues, vec![Cue::EnemyHit]);
    // the cleared roster is noticed on the next frame
    tick(&mut w, no_input(), 16);
    assert_eq!(w.level, LevelState::Level2);
}

#[test]
fn pause_toggles_over_whole_ticks() {
    let mut w = World::new();
    w.state = GameState::InGame;
    w.overlays.clear();
    tick(&mut w, Input { pause: true, ..no_input() }, 16);
    assert_eq!(w.state, GameState::Pause);
    assert_eq!(w.overlays, vec![OverlayKind::PauseBanner]);
    assert_eq!(w.cues, vec![Cue::Pause]);
    tick(&mut w, Input { pause: true, ..no_input() }, 16);
    assert_eq!(w.state, GameState::InGame);
    assert!(w.overlays.is_empty());
    assert!(w.cues.is_empty());
}
