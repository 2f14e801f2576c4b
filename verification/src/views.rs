//! Read-only views of a session: the administrator's full view, the
//! fog-of-war-limited player view, and the client helpers that preview a
//! path's loot and hazard effects or a turn's resulting digest.

use vstd::prelude::*;
use crate::bits::{bit_is_set, bit_set, cell_of, lemma_cell_of, lemma_zero_bits_clear, spec_bit_is_set};
use crate::crypto::keccak_of;
use crate::engine::{abs_diff, abs_int, compute_state_hash, fog_revealed, reveal_fog_4x4, state_bytes};
use crate::protocol::HeistContract;
use crate::turns::{camera_hits_count, laser_hits_count, path_covers};
use crate::types::{Camera, Error, Game, GameStatus, GameView, Laser, PlayerGameView, Position, TurnPublic};

verus! {

/// Whether any board cell inside the camera's detection zone is revealed
/// in the fog mask: such a camera is shown to the player even when its own
/// cell is still hidden.
pub open spec fn camera_sees_fog(cam: Camera, fog: Seq<u8>) -> bool {
    exists|j: int|
        0 <= j < 144 && abs_int(j % 12 - cam.x) + abs_int(j / 12 - cam.y) <= cam.radius
            && spec_bit_is_set(fog, j)
}

/// Whether any cell of the laser's beam is revealed in the fog mask.
pub open spec fn laser_sees_fog(l: Laser, fog: Seq<u8>) -> bool {
    if l.x1 == l.x2 {
        exists|y: int| l.y1 <= y <= l.y2 && spec_bit_is_set(fog, cell_of(l.x1 as int, y))
    } else if l.y1 == l.y2 {
        exists|x: int| l.x1 <= x <= l.x2 && spec_bit_is_set(fog, cell_of(x, l.y1 as int))
    } else {
        false
    }
}

/// The subsequence of the first `n` cameras whose zone touches the fog.
pub open spec fn visible_cameras_upto(cams: Seq<Camera>, fog: Seq<u8>, n: int) -> Seq<Camera>
    decreases n,
{
    if n <= 0 {
        Seq::empty()
    } else {
        let prev = visible_cameras_upto(cams, fog, n - 1);
        if camera_sees_fog(cams[n - 1], fog) {
            prev.push(cams[n - 1])
        } else {
            prev
        }
    }
}

/// The subsequence of the first `n` lasers whose beam touches the fog.
pub open spec fn visible_lasers_upto(lasers: Seq<Laser>, fog: Seq<u8>, n: int) -> Seq<Laser>
    decreases n,
{
    if n <= 0 {
        Seq::empty()
    } else {
        let prev = visible_lasers_upto(lasers, fog, n - 1);
        if laser_sees_fog(lasers[n - 1], fog) {
            prev.push(lasers[n - 1])
        } else {
            prev
        }
    }
}

/// What `simulate_state_hash_after` hashes: the current state with the
/// submitted turn's effects applied unchecked — collected mask grown by
/// the declared delta, the mover's position, score, fog and the turn
/// counter advanced.
pub open spec fn sim_post(g: Game, g2: Game, t: TurnPublic) -> bool {
    &&& forall|j: int|
        0 <= j < 144 ==> (spec_bit_is_set(g2.loot_collected@, j) <==> spec_bit_is_set(
            g.loot_collected@,
            j,
        ) || spec_bit_is_set(t.loot_collected_mask_delta@, j))
    &&& (t.player == g.player1 ==> {
        &&& g2.player1_pos == t.end_pos
        &&& g2.player1_score == g.player1_score + t.score_delta
        &&& fog_revealed(g.fog_p1@, g2.fog_p1@, t.end_pos.x as int, t.end_pos.y as int)
        &&& g2.fog_p2 == g.fog_p2
        &&& g2.active_player == g.player2
        &&& g2.player2_pos == g.player2_pos
        &&& g2.player2_score == g.player2_score
    })
    &&& (t.player != g.player1 ==> {
        &&& g2.player2_pos == t.end_pos
        &&& g2.player2_score == g.player2_score + t.score_delta
        &&& fog_revealed(g.fog_p2@, g2.fog_p2@, t.end_pos.x as int, t.end_pos.y as int)
        &&& g2.fog_p1 == g.fog_p1
        &&& g2.active_player == g.player1
        &&& g2.player1_pos == g.player1_pos
        &&& g2.player1_score == g.player1_score
    })
    &&& g2.turn_index == g.turn_index + 1
    &&& g2.player1 == g.player1 && g2.player2 == g.player2
    &&& g2.status == g.status
    &&& g2.session_seed == g.session_seed
    &&& g2.started_at_ts == g.started_at_ts && g2.deadline_ts == g.deadline_ts
    &&& g2.walls == g.walls && g2.loot == g.loot
    &&& g2.last_proof_id == g.last_proof_id && g2.winner == g.winner
}

impl HeistContract {
    /// The administrator's unrestricted view of a session.
    pub fn get_game(game: &Game) -> (r: GameView)
        ensures
            r.player1 == game.player1 && r.player2 == game.player2,
            r.status == game.status,
            r.started_at_ts == game.started_at_ts && r.deadline_ts == game.deadline_ts,
            r.turn_index == game.turn_index && r.active_player == game.active_player,
            r.player1_pos == game.player1_pos && r.player2_pos == game.player2_pos,
            r.player1_score == game.player1_score && r.player2_score == game.player2_score,
            r.walls == game.walls && r.loot == game.loot && r.loot_collected
                == game.loot_collected,
            r.cameras@ == game.cameras@ && r.lasers@ == game.lasers@,
            r.winner == game.winner && r.last_proof_id == game.last_proof_id,
    {
        let cameras = game.cameras.clone();
        let lasers = game.lasers.clone();
        proof {
            assert(cameras@ =~= game.cameras@);
            assert(lasers@ =~= game.lasers@);
        }
        GameView {
            player1: game.player1,
            player2: game.player2,
            status: game.status,
            started_at_ts: game.started_at_ts,
            deadline_ts: game.deadline_ts,
            turn_index: game.turn_index,
            active_player: game.active_player,
            player1_pos: game.player1_pos,
            player2_pos: game.player2_pos,
            player1_score: game.player1_score,
            player2_score: game.player2_score,
            walls: game.walls,
            loot: game.loot,
            loot_collected: game.loot_collected,
            cameras,
            lasers,
            winner: game.winner,
            last_proof_id: game.last_proof_id,
        }
    }

    /// The requesting player's own fog-of-war mask.
    pub fn get_player_fog(game: &Game, player: u64) -> (r: Result<[u8; 18], Error>)
        ensures
            player == game.player1 ==> r == Ok::<[u8; 18], Error>(game.fog_p1),
            player != game.player1 && player == game.player2 ==> r == Ok::<[u8; 18], Error>(
                game.fog_p2,
            ),
            player != game.player1 && player != game.player2 ==> r == Err::<[u8; 18], Error>(
                Error::NotPlayer,
            ),
    {
        if player == game.player1 {
            Ok(game.fog_p1)
        } else if player == game.player2 {
            Ok(game.fog_p2)
        } else {
            Err(Error::NotPlayer)
        }
    }

    /// Whether any cell of the camera's zone is already revealed for the
    /// player holding `fog`.
    pub fn camera_intersects_fog(camera: &Camera, fog: &[u8; 18]) -> (r: bool)
        requires
            camera.wf(),
        ensures
            r == camera_sees_fog(*camera, fog@),
    {
        let mut j: u32 = 0;
        while j < 144
            invariant
                j <= 144,
                camera.wf(),
                forall|b: int|
                    0 <= b < j ==> !(abs_int(b % 12 - camera.x) + abs_int(b / 12 - camera.y)
                        <= camera.radius && spec_bit_is_set(fog@, b)),
            decreases 144 - j,
        {
            let x = j % 12;
            let y = j / 12;
            let dx = abs_diff(x, camera.x);
            let dy = abs_diff(y, camera.y);
            if dx + dy <= camera.radius && bit_is_set(fog, j) {
                return true;
            }
            j = j + 1;
        }
        false
    }

    /// Whether any cell of the laser's beam is already revealed for the
    /// player holding `fog`.
    pub fn laser_intersects_fog(laser: &Laser, fog: &[u8; 18]) -> (r: bool)
        requires
            laser.wf(),
        ensures
            r == laser_sees_fog(*laser, fog@),
    {
        if laser.x1 == laser.x2 {
            let x = laser.x1;
            let mut y: u32 = laser.y1;
            while y <= laser.y2
                invariant
                    laser.wf(),
                    laser.x1 == laser.x2,
                    x == laser.x1,
                    laser.y1 <= y <= 12,
                    forall|b: int| laser.y1 <= b < y ==> !spec_bit_is_set(
                        fog@,
                        cell_of(laser.x1 as int, b),
                    ),
                decreases 12 - y,
            {
                proof {
                    lemma_cell_of(x as int, y as int);
                }
                if bit_is_set(fog, y * 12 + x) {
                    return true;
                }
                y = y + 1;
            }
            return false;
        }
        if laser.y1 == laser.y2 {
            let y = laser.y1;
            let mut x: u32 = laser.x1;
            while x <= laser.x2
                invariant
                    laser.wf(),
                    laser.x1 != laser.x2,
                    laser.y1 == laser.y2,
                    y == laser.y1,
                    laser.x1 <= x <= 12,
                    forall|b: int| laser.x1 <= b < x ==> !spec_bit_is_set(
                        fog@,
                        cell_of(b, laser.y1 as int),
                    ),
                decreases 12 - x,
            {
                proof {
                    lemma_cell_of(x as int, y as int);
                }
                if bit_is_set(fog, y * 12 + x) {
                    return true;
                }
                x = x + 1;
            }
            return false;
        }
        false
    }

    /// A player's view of the session: board objects are filtered down to
    /// what that player's fog has revealed — walls and loot cell by cell,
    /// cameras and lasers wherever their zone touches the fog.
    pub fn get_player_view(game: &Game, player: u64) -> (r: Result<PlayerGameView, Error>)
        requires
            game.wf(),
        ensures
            player != game.player1 && player != game.player2 ==> r == Err::<
                PlayerGameView,
                Error,
            >(Error::NotPlayer),
            (player == game.player1 || player == game.player2) ==> r is Ok && {
                let v = r->Ok_0;
                let fog = if player == game.player1 {
                    game.fog_p1
                } else {
                    game.fog_p2
                };
                &&& v.my_fog == fog
                &&& forall|j: int|
                    0 <= j < 144 ==> (spec_bit_is_set(v.visible_walls@, j) <==> spec_bit_is_set(
                        fog@,
                        j,
                    ) && spec_bit_is_set(game.walls@, j))
                &&& forall|j: int|
                    0 <= j < 144 ==> (spec_bit_is_set(v.visible_loot@, j) <==> spec_bit_is_set(
                        fog@,
                        j,
                    ) && spec_bit_is_set(game.loot@, j))
                &&& v.visible_cameras@ == visible_cameras_upto(
                    game.cameras@,
                    fog@,
                    game.cameras@.len() as int,
                )
                &&& v.visible_lasers@ == visible_lasers_upto(
                    game.lasers@,
                    fog@,
                    game.lasers@.len() as int,
                )
                &&& v.player1 == game.player1 && v.player2 == game.player2
                &&& v.status == game.status
                &&& v.started_at_ts == game.started_at_ts && v.deadline_ts == game.deadline_ts
                &&& v.turn_index == game.turn_index && v.active_player == game.active_player
                &&& v.player1_pos == game.player1_pos && v.player2_pos == game.player2_pos
                &&& v.player1_score == game.player1_score && v.player2_score
                    == game.player2_score
                &&& v.loot_collected == game.loot_collected
                &&& v.winner == game.winner && v.last_proof_id == game.last_proof_id
            },
    {
        let my_fog: [u8; 18] = if player == game.player1 {
            game.fog_p1
        } else if player == game.player2 {
            game.fog_p2
        } else {
            return Err(Error::NotPlayer);
        };

        let mut visible_walls: [u8; 18] = [0u8; 18];
        let mut visible_loot: [u8; 18] = [0u8; 18];
        proof {
            assert(visible_walls@ =~= Seq::new(18, |i: int| 0u8));
            assert(visible_loot@ =~= Seq::new(18, |i: int| 0u8));
            assert forall|j: int| 0 <= j < 144 implies !spec_bit_is_set(visible_walls@, j)
                && !spec_bit_is_set(visible_loot@, j) by {
                lemma_zero_bits_clear(j);
            }
        }
        let mut i: u32 = 0;
        while i < 144
            invariant
                i <= 144,
                forall|b: int|
                    0 <= b < 144 ==> (spec_bit_is_set(visible_walls@, b) <==> b < i
                        && spec_bit_is_set(my_fog@, b) && spec_bit_is_set(game.walls@, b)),
                forall|b: int|
                    0 <= b < 144 ==> (spec_bit_is_set(visible_loot@, b) <==> b < i
                        && spec_bit_is_set(my_fog@, b) && spec_bit_is_set(game.loot@, b)),
            decreases 144 - i,
        {
            if bit_is_set(&my_fog, i) {
                if bit_is_set(&game.walls, i) {
                    bit_set(&mut visible_walls, i);
                }
                if bit_is_set(&game.loot, i) {
                    bit_set(&mut visible_loot, i);
                }
            }
            i = i + 1;
        }

        let mut visible_cameras: Vec<Camera> = Vec::new();
        let mut ci: usize = 0;
        while ci < game.cameras.len()
            invariant
                ci <= game.cameras@.len(),
                game.wf(),
                visible_cameras@ == visible_cameras_upto(game.cameras@, my_fog@, ci as int),
            decreases game.cameras@.len() - ci,
        {
            let cam = game.cameras[ci];
            if Self::camera_intersects_fog(&cam, &my_fog) {
                visible_cameras.push(cam);
            }
            ci = ci + 1;
        }

        let mut visible_lasers: Vec<Laser> = Vec::new();
        let mut li: usize = 0;
        while li < game.lasers.len()
            invariant
                li <= game.lasers@.len(),
                game.wf(),
                visible_lasers@ == visible_lasers_upto(game.lasers@, my_fog@, li as int),
            decreases game.lasers@.len() - li,
        {
            let laser = game.lasers[li];
            if Self::laser_intersects_fog(&laser, &my_fog) {
                visible_lasers.push(laser);
            }
            li = li + 1;
        }

        Ok(
            PlayerGameView {
                player1: game.player1,
                player2: game.player2,
                status: game.status,
                started_at_ts: game.started_at_ts,
                deadline_ts: game.deadline_ts,
                turn_index: game.turn_index,
                active_player: game.active_player,
                player1_pos: game.player1_pos,
                player2_pos: game.player2_pos,
                player1_score: game.player1_score,
                player2_score: game.player2_score,
                loot_collected: game.loot_collected,
                visible_walls,
                visible_loot,
                visible_cameras,
                visible_lasers,
                my_fog,
                winner: game.winner,
                last_proof_id: game.last_proof_id,
            },
        )
    }

    /// The loot delta the engine would compute for a path against the
    /// current board; clients call this right before building a turn.
    pub fn get_path_loot_delta(game: &Game, path: &Vec<Position>) -> (r: Result<[u8; 18], Error>)
        requires
            forall|k: int| 0 <= k < path@.len() ==> (#[trigger] path@[k]).wf(),
        ensures
            r is Ok && forall|j: int|
                0 <= j < 144 ==> (spec_bit_is_set((r->Ok_0)@, j) <==> path_covers(path@, j)
                    && spec_bit_is_set(game.loot@, j) && !spec_bit_is_set(
                    game.loot_collected@,
                    j,
                )),
    {
        Ok(Self::collect_loot_delta_from_path(&game.loot, &game.loot_collected, path))
    }

    /// The hazard hit counts the engine would compute for a path.
    pub fn get_path_hazards(game: &Game, path: &Vec<Position>) -> (r: Result<(u32, u32), Error>)
        requires
            game.wf(),
            game.cameras@.len() <= u32::MAX,
            game.lasers@.len() <= u32::MAX,
            forall|k: int| 0 <= k < path@.len() ==> (#[trigger] path@[k]).wf(),
        ensures
            r is Ok && (r->Ok_0).0 == camera_hits_count(
                path@,
                game.cameras@,
                game.cameras@.len() as int,
            ) && (r->Ok_0).1 == laser_hits_count(
                path@,
                game.lasers@,
                game.lasers@.len() as int,
            ),
    {
        Ok(Self::compute_hazard_hits(path, &game.cameras, &game.lasers))
    }

    /// The state digest that would chain after applying the submitted
    /// turn's declared effects, without validating them and without
    /// touching the record: a client-side preview for building
    /// `state_hash_after`. The record is restored before returning.
    pub fn simulate_state_hash_after(
        env: &soroban_sdk::Env,
        game: &mut Game,
        session_id: u32,
        turn: &TurnPublic,
    ) -> (r: Result<[u8; 32], Error>)
        requires
            old(game).wf(),
            turn.end_pos.wf(),
            old(game).turn_index < u32::MAX,
        ensures
            *final(game) == *old(game),
            !(old(game).status is Active) ==> r == Err::<[u8; 32], Error>(Error::InvalidStatus),
            old(game).status is Active ==> {
                let moving_score = if turn.player == old(game).player1 {
                    old(game).player1_score
                } else {
                    old(game).player2_score
                };
                if i128::MIN <= moving_score + turn.score_delta <= i128::MAX {
                    r is Ok
                } else {
                    r == Err::<[u8; 32], Error>(Error::InvalidScoreDelta)
                }
            },
            old(game).status is Active && r is Ok ==> exists|g2: Game|
                sim_post(*old(game), g2, *turn) && (r->Ok_0)@ == keccak_of(
                    state_bytes(session_id, g2),
                ),
    {
        if !matches!(game.status, GameStatus::Active) {
            return Err(Error::InvalidStatus);
        }

        let mut collected = game.loot_collected;
        let mut i: u32 = 0;
        while i < 144
            invariant
                i <= 144,
                *game == *old(game),
                forall|b: int|
                    0 <= b < 144 ==> (spec_bit_is_set(collected@, b) <==> spec_bit_is_set(
                        game.loot_collected@,
                        b,
                    ) || (spec_bit_is_set(turn.loot_collected_mask_delta@, b) && b < i)),
            decreases 144 - i,
        {
            if bit_is_set(&turn.loot_collected_mask_delta, i) && !bit_is_set(&collected, i) {
                bit_set(&mut collected, i);
            }
            i = i + 1;
        }

        let is_p1 = turn.player == game.player1;
        let moving_score: i128 = if is_p1 {
            game.player1_score
        } else {
            game.player2_score
        };
        if turn.score_delta >= 0 {
            if moving_score > i128::MAX - turn.score_delta {
                return Err(Error::InvalidScoreDelta);
            }
        } else {
            if moving_score < i128::MIN - turn.score_delta {
                return Err(Error::InvalidScoreDelta);
            }
        }
        let new_score: i128 = moving_score + turn.score_delta;

        let saved_collected = game.loot_collected;
        let saved_p1_pos = game.player1_pos;
        let saved_p2_pos = game.player2_pos;
        let saved_p1_score = game.player1_score;
        let saved_p2_score = game.player2_score;
        let saved_fog_p1 = game.fog_p1;
        let saved_fog_p2 = game.fog_p2;
        let saved_active = game.active_player;
        let saved_turn_index = game.turn_index;

        game.loot_collected = collected;
        if is_p1 {
            game.player1_pos = turn.end_pos;
            game.player1_score = new_score;
            let mut fog = game.fog_p1;
            reveal_fog_4x4(&mut fog, turn.end_pos.x, turn.end_pos.y);
            game.fog_p1 = fog;
            game.active_player = game.player2;
        } else {
            game.player2_pos = turn.end_pos;
            game.player2_score = new_score;
            let mut fog = game.fog_p2;
            reveal_fog_4x4(&mut fog, turn.end_pos.x, turn.end_pos.y);
            game.fog_p2 = fog;
            game.active_player = game.player1;
        }
        game.turn_index = game.turn_index + 1;

        let hash = compute_state_hash(env, session_id, game);
        let ghost g2 = *game;

        game.loot_collected = saved_collected;
        game.player1_pos = saved_p1_pos;
        game.player2_pos = saved_p2_pos;
        game.player1_score = saved_p1_score;
        game.player2_score = saved_p2_score;
        game.fog_p1 = saved_fog_p1;
        game.fog_p2 = saved_fog_p2;
        game.active_player = saved_active;
        game.turn_index = saved_turn_index;

        proof {
            assert(sim_post(*old(game), g2, *turn));
        }
        Ok(hash)
    }
}

} // verus!
