//! The player ship: spawning, discrete step movement with sprite facing,
//! and clamping to the playfield borders.

use vstd::prelude::*;

use crate::game::GameState;
use crate::geom::{clamp_i, clamp_to};
use crate::world::{
    same_cues, same_flags, same_modes, same_pending, same_queue, same_vis, wf, world_unchanged,
    EntStore, Facing, Ship, World, POS_LIMIT,
};

verus! {

/// Create the player ship at the start position, facing forward.
pub fn load_players(w: &mut World)
    requires
        wf(*old(w)),
        old(w).next_id < u64::MAX,
    ensures
        wf(*final(w)),
        final(w).store() == (EntStore {
            player: Some(Ship { id: old(w).next_id, x: 0i64, y: -370_000i64 }),
            player_facing: Facing::Forward,
            ..old(w).store()
        }),
        final(w).next_id == old(w).next_id + 1,
        same_modes(*old(w), *final(w)),
        same_pending(*old(w), *final(w)),
        same_flags(*old(w), *final(w)),
        same_queue(*old(w), *final(w)),
        same_cues(*old(w), *final(w)),
        same_vis(*old(w), *final(w)),
{
    w.player = Some(Ship { id: w.next_id, x: 0, y: -370_000 });
    w.player_facing = Facing::Forward;
    w.next_id = w.next_id + 1;
}

/// The player after one frame of step input: a right press moves 25 units
/// right, a left press 25 units left, each handled in that order and
/// clamped into the coordinate arena.
pub open spec fn stepped_player(p: Ship, left: bool, right: bool) -> Ship {
    let p1 = if right {
        Ship { x: clamp_i(p.x + 25_000, POS_LIMIT as int) as i64, ..p }
    } else {
        p
    };
    if left {
        Ship { x: clamp_i(p1.x - 25_000, POS_LIMIT as int) as i64, ..p1 }
    } else {
        p1
    }
}

/// The sprite facing after one frame of step input; a left press is
/// handled after a right press, so it wins when both are down.
pub open spec fn stepped_facing(f: Facing, left: bool, right: bool) -> Facing {
    if left {
        Facing::LeftSide
    } else if right {
        Facing::RightSide
    } else {
        f
    }
}

/// While in game, a step input moves the player ship by 25 units and
/// turns the sprite toward the pressed side.
pub fn keys_for_players(w: &mut World, left: bool, right: bool)
    requires
        wf(*old(w)),
    ensures
        wf(*final(w)),
        old(w).state == GameState::InGame && old(w).player is Some ==> final(w).store()
            == (EntStore {
            player: Some(stepped_player(old(w).player.unwrap(), left, right)),
            player_facing: stepped_facing(old(w).player_facing, left, right),
            ..old(w).store()
        }),
        !(old(w).state == GameState::InGame && old(w).player is Some) ==> world_unchanged(
            *old(w),
            *final(w),
        ),
        final(w).next_id == old(w).next_id,
        same_modes(*old(w), *final(w)),
        same_pending(*old(w), *final(w)),
        same_flags(*old(w), *final(w)),
        same_queue(*old(w), *final(w)),
        same_cues(*old(w), *final(w)),
        same_vis(*old(w), *final(w)),
{
    if w.state == GameState::InGame {
        match w.player {
            Some(p) => {
                let mut q = p;
                if right {
                    q.x = clamp_to(q.x + 25_000, POS_LIMIT);
                    w.player_facing = Facing::RightSide;
                }
                if left {
                    q.x = clamp_to(q.x - 25_000, POS_LIMIT);
                    w.player_facing = Facing::LeftSide;
                }
                w.player = Some(q);
            },
            None => {},
        }
    }
}

/// The player ship after border clamping: the playfield allows
/// x between -475 and 475 units.
pub open spec fn bordered_player(p: Ship) -> Ship {
    if p.x >= 475_000 {
        Ship { x: 475_000i64, ..p }
    } else if p.x <= -475_000 {
        Ship { x: -475_000i64, ..p }
    } else {
        p
    }
}

/// While in game, keep the player ship inside the playfield borders.
pub fn borders_for_player(w: &mut World)
    requires
        wf(*old(w)),
    ensures
        wf(*final(w)),
        old(w).state == GameState::InGame && old(w).player is Some ==> final(w).store()
            == (EntStore {
            player: Some(bordered_player(old(w).player.unwrap())),
            ..old(w).store()
        }),
        !(old(w).state == GameState::InGame && old(w).player is Some) ==> world_unchanged(
            *old(w),
            *final(w),
        ),
        final(w).next_id == old(w).next_id,
        same_modes(*old(w), *final(w)),
        same_pending(*old(w), *final(w)),
        same_flags(*old(w), *final(w)),
        same_queue(*old(w), *final(w)),
        same_cues(*old(w), *final(w)),
        same_vis(*old(w), *final(w)),
{
    if w.state == GameState::InGame {
        match w.player {
            Some(p) => {
                let mut q = p;
                if q.x >= 475_000 {
                    q.x = 475_000;
                } else if q.x <= -475_000 {
                    q.x = -475_000;
                }
                w.player = Some(q);
            },
            None => {},
        }
    }
}

} // verus!
