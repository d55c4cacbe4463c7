//! Per-system behavior: roster loading, separation, collision predicates,
//! movement, player steering and enemy fire.

use space_shooter::game::{enemy_laser_hits_player, GameState};
use space_shooter::lasers_enemies::{
    collision_lasers_player_with_lasers_enemies, enemies_shoot, move_lasers_enemies,
    player_laser_hits_enemy_laser,
};
use space_shooter::lasers_player::{
    collision_lasers_player_with_enemies, lasers_player, move_lasers, player_laser_hits_enemy,
};
use space_shooter::levels::{
    check_level_1_complete, check_level_2_complete, distance_between_enemies_in_level_1,
    load_level_1, load_level_2, load_level_3, unload_level_1, unload_level_2, unload_level_3,
    LevelState,
};
use space_shooter::player::{borders_for_player, keys_for_players, load_players};
use space_shooter::world::{apply_commands, Command, Cue, Facing, OverlayKind, Ship, World};

fn in_game_world() -> World {
    let mut w = World::new();
    w.state = GameState::InGame;
    w
}

#[test]
fn load_level_1_creates_seven_in_range() {
    let mut w = World::new();
    unload_level_1(&mut w);
    assert_eq!(w.enemies_level_1.len(), 0);
    assert!(!w.spawned);
    load_level_1(&mut w);
    assert_eq!(w.enemies_level_1.len(), 7);
    for e in &w.enemies_level_1 {
        assert!(-380_000 <= e.x && e.x < 380_000);
        assert!(100_000 <= e.y && e.y < 250_000);
    }
    assert!(w.spawned);
}

#[test]
fn load_level_2_creates_fifteen_in_range() {
    let mut w = World::new();
    unload_level_1(&mut w);
    w.level = LevelState::Level2;
    load_level_2(&mut w);
    assert_eq!(w.enemies_level_2.len(), 15);
    for e in &w.enemies_level_2 {
        assert!(-380_000 <= e.x && e.x < 380_000);
        assert!(50_000 <= e.y && e.y < 250_000);
    }
    assert!(w.spawned);
}

#[test]
fn load_level_3_creates_twenty_five_in_range() {
    let mut w = World::new();
    unload_level_1(&mut w);
    w.level = LevelState::Level3;
    load_level_3(&mut w);
    assert_eq!(w.enemies_level_3.len(), 25);
    for e in &w.enemies_level_3 {
        assert!(-380_000 <= e.x && e.x < 380_000);
        assert!(0 <= e.y && e.y < 250_000);
    }
    assert!(w.spawned);
}

#[test]
fn load_positions_vary() {
    let mut w = World::new();
    unload_level_1(&mut w);
    w.level = LevelState::Level3;
    load_level_3(&mut w);
    let first = w.enemies_level_3[0].x;
    assert!(w.enemies_level_3.iter().any(|e| e.x != first));
}

#[test]
fn separation_skips_exactly_overlapping_pair() {
    let mut w = in_game_world();
    w.enemies_level_1 = vec![
        Ship { id: 100, x: 1_000, y: 2_000 },
        Ship { id: 101, x: 1_000, y: 2_000 },
    ];
    distance_between_enemies_in_level_1(&mut w);
    assert_eq!(w.enemies_level_1[0], Ship { id: 100, x: 1_000, y: 2_000 });
    assert_eq!(w.enemies_level_1[1], Ship { id: 101, x: 1_000, y: 2_000 });
}

#[test]
fn separation_pushes_close_pair_apart() {
    let mut w = in_game_world();
    w.enemies_level_1 = vec![
        Ship { id: 100, x: 0, y: 0 },
        Ship { id: 101, x: 50_000, y: 0 },
    ];
    distance_between_enemies_in_level_1(&mut w);
    // distance 50 under spacing 100: each moves 50 away from the other's
    // snapshot position
    assert_eq!(w.enemies_level_1[0], Ship { id: 100, x: -50_000, y: 0 });
    assert_eq!(w.enemies_level_1[1], Ship { id: 101, x: 100_000, y: 0 });
}

#[test]
fn separation_leaves_distant_pair_alone() {
    let mut w = in_game_world();
    w.enemies_level_1 = vec![
        Ship { id: 100, x: 0, y: 0 },
        Ship { id: 101, x: 250_000, y: 0 },
    ];
    distance_between_enemies_in_level_1(&mut w);
    assert_eq!(w.enemies_level_1[0].x, 0);
    assert_eq!(w.enemies_level_1[1].x, 250_000);
}

#[test]
fn collision_predicate_unit_cases() {
    // player at (0,0), enemy projectile at (10, 15): hit
    assert!(enemy_laser_hits_player(10_000, 15_000, 0, 0));
    // enemy projectile at (25, 0): no hit, horizontal gap is 25
    assert!(!enemy_laser_hits_player(25_000, 0, 0, 0));
    // vertical band edges are exclusive
    assert!(!enemy_laser_hits_player(0, 20_000, 0, 0));
    assert!(enemy_laser_hits_player(0, 19_999, 0, 0));
}

#[test]
fn enemy_hit_predicate_band_is_above_ship() {
    // the projectile must sit strictly above the ship, within 30 units
    assert!(player_laser_hits_enemy(0, 10_000, 0, 0));
    assert!(!player_laser_hits_enemy(0, 0, 0, 0));
    assert!(!player_laser_hits_enemy(0, 30_000, 0, 0));
    assert!(!player_laser_hits_enemy(30_000, 10_000, 0, 0));
    assert!(player_laser_hits_enemy(29_999, 10_000, 0, 0));
}

#[test]
fn clash_predicate_band() {
    assert!(player_laser_hits_enemy_laser(0, 5_000, 0, 0));
    assert!(!player_laser_hits_enemy_laser(0, 10_000, 0, 0));
    assert!(!player_laser_hits_enemy_laser(10_000, 0, 0, 0));
    assert!(player_laser_hits_enemy_laser(9_999, 0, 0, 0));
}

#[test]
fn player_lasers_rise_at_450_per_second() {
    let mut w = in_game_world();
    w.player_lasers = vec![Ship { id: 50, x: 0, y: 0 }];
    move_lasers(&mut w, 16);
    assert_eq!(w.player_lasers[0].y, 7_200);
    move_lasers(&mut w, 1000);
    assert_eq!(w.player_lasers[0].y, 7_200 + 450_000);
}

#[test]
fn enemy_lasers_fall_at_365_per_second() {
    let mut w = in_game_world();
    w.enemy_lasers = vec![Ship { id: 50, x: 0, y: 0 }];
    move_lasers_enemies(&mut w, 16);
    assert_eq!(w.enemy_lasers[0].y, -5_840);
    move_lasers_enemies(&mut w, 1000);
    assert_eq!(w.enemy_lasers[0].y, -5_840 - 365_000);
}

#[test]
fn lasers_do_not_move_outside_game() {
    let mut w = World::new();
    w.player_lasers = vec![Ship { id: 50, x: 0, y: 0 }];
    move_lasers(&mut w, 16);
    assert_eq!(w.player_lasers[0].y, 0);
}

#[test]
fn player_steps_25_units_and_faces_pressed_side() {
    let mut w = in_game_world();
    keys_for_players(&mut w, false, true);
    assert_eq!(w.player.unwrap().x, 25_000);
    assert_eq!(w.player_facing, Facing::RightSide);
    keys_for_players(&mut w, true, false);
    assert_eq!(w.player.unwrap().x, 0);
    assert_eq!(w.player_facing, Facing::LeftSide);
}

#[test]
fn borders_clamp_player_to_475() {
    let mut w = in_game_world();
    let p = w.player.unwrap();
    w.player = Some(Ship { x: 480_000, ..p });
    borders_for_player(&mut w);
    assert_eq!(w.player.unwrap().x, 475_000);
    w.player = Some(Ship { x: -600_000, ..p });
    borders_for_player(&mut w);
    assert_eq!(w.player.unwrap().x, -475_000);
}

#[test]
fn fire_press_spawns_laser_at_player_and_plays_cue() {
    let mut w = in_game_world();
    lasers_player(&mut w, true);
    assert_eq!(w.cues, vec![Cue::PlayerShot]);
    apply_commands(&mut w);
    assert_eq!(w.player_lasers.len(), 1);
    assert_eq!(w.player_lasers[0].x, 0);
    assert_eq!(w.player_lasers[0].y, -370_000);
}

#[test]
fn fire_timer_expires_at_3500_ms_with_one_shared_cue() {
    let mut w = in_game_world();
    enemies_shoot(&mut w, 3_499);
    assert_eq!(w.fire_timer_ms, 3_499);
    assert_eq!(w.queue.len(), 0);
    assert!(w.cues.is_empty());
    enemies_shoot(&mut w, 1);
    assert_eq!(w.fire_timer_ms, 0);
    apply_commands(&mut w);
    assert_eq!(w.enemy_lasers.len(), 7);
    for (l, e) in w.enemy_lasers.iter().zip(w.enemies_level_1.iter()) {
        assert_eq!(l.x, e.x);
        assert_eq!(l.y, e.y);
    }
    assert_eq!(w.cues, vec![Cue::EnemyVolley]);
}

#[test]
fn fire_timer_silent_with_no_enemies() {
    let mut w = in_game_world();
    unload_level_1(&mut w);
    enemies_shoot(&mut w, 4_000);
    assert_eq!(w.fire_timer_ms, 500);
    assert!(w.cues.is_empty());
    apply_commands(&mut w);
    assert_eq!(w.enemy_lasers.len(), 0);
}

#[test]
fn fire_timer_frozen_outside_game() {
    let mut w = World::new();
    enemies_shoot(&mut w, 10_000);
    assert_eq!(w.fire_timer_ms, 0);
    assert_eq!(w.queue.len(), 0);
}

#[test]
fn player_laser_kills_first_matching_enemy() {
    let mut w = in_game_world();
    unload_level_1(&mut w);
    w.enemies_level_1 = vec![
        Ship { id: 100, x: 0, y: 0 },
        Ship { id: 101, x: 5_000, y: 0 },
    ];
    w.player_lasers = vec![Ship { id: 200, x: 0, y: 10_000 }];
    collision_lasers_player_with_enemies(&mut w);
    // first-match: only the first enemy and the laser are despawned
    assert_eq!(
        w.queue,
        vec![Command::Despawn { id: 100 }, Command::Despawn { id: 200 }]
    );
    assert_eq!(w.cues, vec![Cue::EnemyHit]);
    apply_commands(&mut w);
    assert_eq!(w.enemies_level_1, vec![Ship { id: 101, x: 5_000, y: 0 }]);
    assert!(w.player_lasers.is_empty());
}

#[test]
fn laser_clash_despawns_both_and_plays_cue() {
    let mut w = in_game_world();
    w.player_lasers = vec![Ship { id: 200, x: 0, y: 0 }];
    w.enemy_lasers = vec![
        Ship { id: 300, x: 2_000, y: 1_000 },
        Ship { id: 301, x: 90_000, y: 0 },
    ];
    collision_lasers_player_with_lasers_enemies(&mut w);
    assert_eq!(
        w.queue,
        vec![Command::Despawn { id: 200 }, Command::Despawn { id: 300 }]
    );
    assert_eq!(w.cues, vec![Cue::LaserClash]);
    apply_commands(&mut w);
    assert!(w.player_lasers.is_empty());
    assert_eq!(w.enemy_lasers, vec![Ship { id: 301, x: 90_000, y: 0 }]);
}

#[test]
fn level_complete_advances_only_matching_level() {
    let mut w = in_game_world();
    unload_level_1(&mut w);
    w.spawned = true;
    check_level_2_complete(&mut w);
    assert_eq!(w.pending_level, None);
    check_level_1_complete(&mut w);
    assert_eq!(w.pending_level, Some(LevelState::Level2));
}

#[test]
fn level_complete_blocked_before_spawn_finishes() {
    let mut w = in_game_world();
    w.enemies_level_1.clear();
    w.spawned = false;
    check_level_1_complete(&mut w);
    assert_eq!(w.pending_level, None);
}

#[test]
fn load_players_places_ship_at_start() {
    let mut w = World::new();
    w.player = None;
    load_players(&mut w);
    let p = w.player.unwrap();
    assert_eq!((p.x, p.y), (0, -370_000));
    assert_eq!(w.player_facing, Facing::Forward);
}

#[test]
fn unload_clears_roster_and_flag() {
    let mut w = World::new();
    assert_eq!(w.enemies_level_1.len(), 7);
    unload_level_1(&mut w);
    assert_eq!(w.enemies_level_1.len(), 0);
    assert!(!w.spawned);
    unload_level_2(&mut w);
    unload_level_3(&mut w);
    assert_eq!(w.enemies_level_2.len(), 0);
    assert_eq!(w.enemies_level_3.len(), 0);
}

#[test]
fn start_banner_present_at_startup() {
    let w = World::new();
    assert_eq!(w.overlays, vec![OverlayKind::StartText]);
    assert!(!w.gameplay_visible);
}
