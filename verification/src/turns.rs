//! Turn validation and application: path legality, loot reconciliation,
//! hazard detection, the canonical turn-public hash, and the two halves of
//! the submit-turn flow.
//!
//! A turn is processed in two steps. `prepare_turn` runs every local check
//! and returns the canonical hash of the public turn data; the shell then
//! hands that hash and the proof blob to the external verifier, and only on
//! its success calls `apply_turn`, which reconciles the declared effects
//! against what the engine derives from the path and commits the new state.

use vstd::prelude::*;
use crate::bits::{
    bit_is_set, bit_set, cell_of, lemma_bits_determine_bytes, lemma_cell_of,
    lemma_zero_bits_clear, spec_bit_is_set,
};
use crate::crypto::{keccak256, keccak_of};
use crate::engine::{
    abs_diff, abs_int, be_i128, be_u32, be_u64, compute_state_hash, exists_any_path_len,
    fog_revealed, push_arr, push_i128_be, push_u32_be, push_u64_be, reveal_fog_4x4, roll_value,
    spec_has_any_path, spec_roll, state_bytes, CAMERA_PENALTY, LASER_PENALTY,
};
use crate::protocol::{bytes32_eq, HeistContract};
use crate::types::{Camera, Error, Game, GameStatus, Laser, Position, TurnPublic};

verus! {

/// Whether two cells are exactly one orthogonal step apart.
pub open spec fn step_adjacent(a: Position, b: Position) -> bool {
    abs_int(a.x - b.x) + abs_int(a.y - b.y) == 1
}

/// Whether a single path cell is on the board and off the walls.
pub open spec fn cell_open(walls: Seq<u8>, p: Position) -> bool {
    p.x < 12 && p.y < 12 && !spec_bit_is_set(walls, cell_of(p.x as int, p.y as int))
}

/// A legal movement path under the partial-move rule: it starts at the
/// player's cell, takes between 1 and `rolled` steps, stays on walkable
/// board cells and moves one orthogonal step at a time.
pub open spec fn spec_valid_path(walls: Seq<u8>, path: Seq<Position>, rolled: u32) -> bool {
    &&& 2 <= path.len()
    &&& path.len() <= rolled + 1
    &&& forall|i: int| 0 <= i < path.len() ==> cell_open(walls, #[trigger] path[i])
    &&& forall|i: int| 1 <= i < path.len() ==> step_adjacent(path[i - 1], #[trigger] path[i])
}

/// Whether some cell of `path` occupies bit position `j`.
pub open spec fn path_covers(path: Seq<Position>, j: int) -> bool {
    exists|k: int|
        0 <= k < path.len() && cell_of((#[trigger] path[k]).x as int, path[k].y as int) == j
}

/// Whether some cell of `path` lies within the camera's detection zone.
pub open spec fn spec_path_hits_camera(path: Seq<Position>, cam: Camera) -> bool {
    exists|k: int|
        0 <= k < path.len() && abs_int((#[trigger] path[k]).x - cam.x) + abs_int(
            path[k].y - cam.y,
        ) <= cam.radius
}

/// Whether some cell of `path` lies on the laser's axis-aligned beam.
pub open spec fn spec_path_hits_laser(path: Seq<Position>, l: Laser) -> bool {
    if l.x1 == l.x2 {
        exists|k: int|
            0 <= k < path.len() && (#[trigger] path[k]).x == l.x1 && l.y1 <= path[k].y <= l.y2
    } else if l.y1 == l.y2 {
        exists|k: int|
            0 <= k < path.len() && (#[trigger] path[k]).y == l.y1 && l.x1 <= path[k].x <= l.x2
    } else {
        false
    }
}

/// How many of the first `n` cameras the path crosses; each camera counts
/// at most once however often the path enters its zone.
pub open spec fn camera_hits_count(path: Seq<Position>, cams: Seq<Camera>, n: int) -> int
    decreases n,
{
    if n <= 0 {
        0
    } else {
        camera_hits_count(path, cams, n - 1) + if spec_path_hits_camera(path, cams[n - 1]) {
            1int
        } else {
            0int
        }
    }
}

/// How many of the first `n` lasers the path crosses, one count per laser.
pub open spec fn laser_hits_count(path: Seq<Position>, lasers: Seq<Laser>, n: int) -> int
    decreases n,
{
    if n <= 0 {
        0
    } else {
        laser_hits_count(path, lasers, n - 1) + if spec_path_hits_laser(path, lasers[n - 1]) {
            1int
        } else {
            0int
        }
    }
}

/// Whether loot bit `j` is newly collected by this turn: the path crosses
/// it, it holds loot, and nobody has collected it yet. A no-path turn
/// collects nothing.
pub open spec fn delta_bit(g: Game, t: TurnPublic, j: int) -> bool {
    &&& !t.no_path_flag
    &&& path_covers(t.path@, j)
    &&& spec_bit_is_set(g.loot@, j)
    &&& !spec_bit_is_set(g.loot_collected@, j)
}

/// How many loot bits below `n` this turn newly collects.
pub open spec fn delta_count(g: Game, t: TurnPublic, n: int) -> int
    decreases n,
{
    if n <= 0 {
        0
    } else {
        delta_count(g, t, n - 1) + if delta_bit(g, t, n - 1) {
            1int
        } else {
            0int
        }
    }
}

/// The byte encoding of a path prefix: each cell as two big-endian `u32`s.
pub open spec fn path_bytes(p: Seq<Position>, n: int) -> Seq<u8>
    decreases n,
{
    if n <= 0 {
        Seq::empty()
    } else {
        path_bytes(p, n - 1) + be_u32(p[n - 1].x) + be_u32(p[n - 1].y)
    }
}

/// The canonical byte string hashed into the public-turn digest that binds
/// a proof to this exact turn: every public field in a fixed order with
/// fixed-width encodings, then the path cells.
pub open spec fn turn_bytes(t: TurnPublic) -> Seq<u8> {
    be_u32(t.session_id) + be_u32(t.turn_index) + be_u64(t.player) + be_u32(t.start_pos.x)
        + be_u32(t.start_pos.y) + be_u32(t.end_pos.x) + be_u32(t.end_pos.y) + be_u32(
        t.rolled_value,
    ) + be_i128(t.score_delta) + be_u32(t.camera_hits) + be_u32(t.laser_hits)
        + t.loot_collected_mask_delta@ + seq![
        if t.no_path_flag {
            1u8
        } else {
            0u8
        },
    ] + t.state_hash_before@ + t.state_hash_after@ + path_bytes(t.path@, t.path@.len() as int)
}

/// The first rejection `prepare_turn` owes for this submission, or `None`
/// when every local check passes. The checks run in protocol order, each a
/// distinct fail-fast rejection.
pub open spec fn turn_check(
    g: Game,
    session_id: u32,
    player: u64,
    blob_len: nat,
    t: TurnPublic,
    now_ts: u64,
) -> Option<Error> {
    let current = if player == g.player1 {
        g.player1_pos
    } else {
        g.player2_pos
    };
    let tag: u32 = if player == g.player1 {
        1
    } else {
        2
    };
    if !(g.status is Active) {
        Some(Error::GameAlreadyEnded)
    } else if (if g.deadline_ts is Some {
        g.deadline_ts->0
    } else {
        0u64
    }) <= now_ts {
        Some(Error::TimerExpired)
    } else if player != g.active_player {
        Some(Error::NotActivePlayer)
    } else if t.player != player || t.session_id != session_id {
        Some(Error::InvalidTurnData)
    } else if t.turn_index != g.turn_index {
        Some(Error::InvalidTurnData)
    } else if blob_len == 0 {
        Some(Error::ProofRequired)
    } else if t.state_hash_before@ != keccak_of(state_bytes(session_id, g)) {
        Some(Error::StateHashMismatch)
    } else if t.start_pos != current {
        Some(Error::InvalidTurnData)
    } else if g.session_seed is None {
        Some(Error::SeedsNotReady)
    } else if t.rolled_value != spec_roll((g.session_seed->0)@, g.turn_index, tag) {
        Some(Error::InvalidMoveLength)
    } else if t.no_path_flag {
        if t.start_pos != t.end_pos || t.score_delta != 0 || t.camera_hits != 0 || t.laser_hits
            != 0 || (exists|i: int|
            0 <= i < 144 && spec_bit_is_set(t.loot_collected_mask_delta@, i)) || t.path@.len()
            != 1 || t.path@[0] != t.start_pos {
            Some(Error::InvalidNoPathFlag)
        } else if spec_has_any_path(g.walls@, current.x as int, current.y as int, 1) {
            Some(Error::InvalidNoPathFlag)
        } else {
            None
        }
    } else if !spec_valid_path(g.walls@, t.path@, t.rolled_value) {
        Some(Error::InvalidMoveLength)
    } else if t.path@[t.path@.len() - 1] != t.end_pos {
        Some(Error::InvalidMoveLength)
    } else {
        None
    }
}

/// The first rejection `apply_turn` owes before any state is touched, or
/// `None` when the declared effects reconcile exactly with what the engine
/// derives from the path.
pub open spec fn apply_check(g: Game, t: TurnPublic) -> Option<Error> {
    let cam = if t.no_path_flag {
        0int
    } else {
        camera_hits_count(t.path@, g.cameras@, g.cameras@.len() as int)
    };
    let las = if t.no_path_flag {
        0int
    } else {
        laser_hits_count(t.path@, g.lasers@, g.lasers@.len() as int)
    };
    let expected_score = delta_count(g, t, 144) - t.camera_hits * CAMERA_PENALTY - t.laser_hits
        * LASER_PENALTY;
    let moving_score = if t.player == g.player1 {
        g.player1_score
    } else {
        g.player2_score
    };
    if t.camera_hits != cam || t.laser_hits != las {
        Some(Error::InvalidTurnData)
    } else if !(forall|j: int|
        0 <= j < 144 ==> (spec_bit_is_set(t.loot_collected_mask_delta@, j) == delta_bit(
            g,
            t,
            j,
        ))) {
        Some(Error::InvalidTurnData)
    } else if t.score_delta != expected_score {
        Some(Error::InvalidScoreDelta)
    } else if moving_score + t.score_delta > i128::MAX || moving_score + t.score_delta
        < i128::MIN {
        Some(Error::InvalidScoreDelta)
    } else {
        None
    }
}

/// What `apply_turn` promises of the committed successor state.
pub open spec fn applied_post(g: Game, g2: Game, t: TurnPublic, proof_id: [u8; 32]) -> bool {
    &&& forall|j: int|
        0 <= j < 144 ==> (#[trigger] spec_bit_is_set(g2.loot_collected@, j) <==> spec_bit_is_set(
            g.loot_collected@,
            j,
        ) || delta_bit(g, t, j))
    &&& (t.player == g.player1 ==> {
        &&& g2.player1_pos == t.end_pos
        &&& g2.player1_score == g.player1_score + t.score_delta
        &&& fog_revealed(g.fog_p1@, g2.fog_p1@, t.end_pos.x as int, t.end_pos.y as int)
        &&& g2.fog_p2 == g.fog_p2
        &&& g2.active_player == g.player2
        &&& g2.player2_pos == g.player2_pos
        &&& g2.player2_score == g.player2_score
    })
    &&& (t.player != g.player1 ==> {
        &&& g2.player2_pos == t.end_pos
        &&& g2.player2_score == g.player2_score + t.score_delta
        &&& fog_revealed(g.fog_p2@, g2.fog_p2@, t.end_pos.x as int, t.end_pos.y as int)
        &&& g2.fog_p1 == g.fog_p1
        &&& g2.active_player == g.player1
        &&& g2.player1_pos == g.player1_pos
        &&& g2.player1_score == g.player1_score
    })
    &&& g2.turn_index == g.turn_index + 1
    &&& g2.last_proof_id == Some(proof_id)
    &&& g2.player1 == g.player1 && g2.player2 == g.player2
    &&& g2.player1_points == g.player1_points && g2.player2_points == g.player2_points
    &&& g2.status == g.status
    &&& g2.p1_seed_commit == g.p1_seed_commit && g2.p2_seed_commit == g.p2_seed_commit
    &&& g2.p1_seed_reveal == g.p1_seed_reveal && g2.p2_seed_reveal == g.p2_seed_reveal
    &&& g2.session_seed == g.session_seed
    &&& g2.started_at_ts == g.started_at_ts && g2.deadline_ts == g.deadline_ts
    &&& g2.walls == g.walls && g2.loot == g.loot
    &&& g2.cameras == g.cameras && g2.lasers == g.lasers
    &&& g2.winner == g.winner
    &&& g2.wf()
}

/// Two successor states that both satisfy `applied_post` for the same
/// prior state and turn hash to the same digest input: the relation pins
/// every hashed field, the two bit-level masks included, and a board
/// bitset holds exactly its 144 bits.
pub proof fn lemma_applied_post_determines_digest(
    g: Game,
    ga: Game,
    gb: Game,
    t: TurnPublic,
    proof_id: [u8; 32],
    session_id: u32,
)
    requires
        applied_post(g, ga, t, proof_id),
        applied_post(g, gb, t, proof_id),
    ensures
        state_bytes(session_id, ga) == state_bytes(session_id, gb),
{
    assert forall|j: int|
        0 <= j < 144 implies spec_bit_is_set(ga.loot_collected@, j) == spec_bit_is_set(
        gb.loot_collected@,
        j,
    ) by {}
    lemma_bits_determine_bytes(ga.loot_collected@, gb.loot_collected@);
    if t.player == g.player1 {
        assert forall|j: int|
            0 <= j < 144 implies spec_bit_is_set(ga.fog_p1@, j) == spec_bit_is_set(
            gb.fog_p1@,
            j,
        ) by {}
        lemma_bits_determine_bytes(ga.fog_p1@, gb.fog_p1@);
    } else {
        assert forall|j: int|
            0 <= j < 144 implies spec_bit_is_set(ga.fog_p2@, j) == spec_bit_is_set(
            gb.fog_p2@,
            j,
        ) by {}
        lemma_bits_determine_bytes(ga.fog_p2@, gb.fog_p2@);
    }
}

impl HeistContract {
    /// Checks a candidate path against the wall bitset, board bounds,
    /// step adjacency and the rolled step budget.
    pub fn validate_path(walls: &[u8; 18], path: &Vec<Position>, rolled: u32) -> (r: bool)
        ensures
            r == spec_valid_path(walls@, path@, rolled),
    {
        if path.len() < 2 {
            return false;
        }
        if path.len() as u64 > rolled as u64 + 1 {
            return false;
        }
        let mut i: usize = 0;
        while i < path.len()
            invariant
                i <= path@.len(),
                2 <= path@.len() <= rolled + 1,
                forall|j: int| 0 <= j < i ==> cell_open(walls@, #[trigger] path@[j]),
                forall|j: int| 1 <= j < i ==> step_adjacent(path@[j - 1], #[trigger] path@[j]),
            decreases path@.len() - i,
        {
            let p = path[i];
            if p.x >= 12 || p.y >= 12 {
                return false;
            }
            proof {
                lemma_cell_of(p.x as int, p.y as int);
            }
            if bit_is_set(walls, p.y * 12 + p.x) {
                return false;
            }
            if i > 0 {
                let prev = path[i - 1];
                let dx = abs_diff(p.x, prev.x);
                let dy = abs_diff(p.y, prev.y);
                if dx + dy != 1 {
                    return false;
                }
            }
            i = i + 1;
        }
        true
    }

    /// The loot bits a path would newly collect against the current board:
    /// loot cells crossed by the path whose bit is not yet in the collected
    /// mask. Already-collected cells may still be traversed; they simply
    /// add nothing.
    pub fn collect_loot_delta_from_path(
        loot: &[u8; 18],
        loot_collected: &[u8; 18],
        path: &Vec<Position>,
    ) -> (delta: [u8; 18])
        requires
            forall|k: int| 0 <= k < path@.len() ==> (#[trigger] path@[k]).wf(),
        ensures
            forall|j: int|
                0 <= j < 144 ==> (spec_bit_is_set(delta@, j) <==> path_covers(path@, j)
                    && spec_bit_is_set(loot@, j) && !spec_bit_is_set(loot_collected@, j)),
    {
        let mut delta: [u8; 18] = [0u8; 18];
        proof {
            assert(delta@ =~= Seq::new(18, |i: int| 0u8));
            assert forall|j: int| 0 <= j < 144 implies !spec_bit_is_set(delta@, j) by {
                lemma_zero_bits_clear(j);
            }
        }
        let mut i: usize = 0;
        while i < path.len()
            invariant
                i <= path@.len(),
                forall|k: int| 0 <= k < path@.len() ==> (#[trigger] path@[k]).wf(),
                forall|j: int|
                    0 <= j < 144 ==> (spec_bit_is_set(delta@, j) <==> path_covers_upto(
                        path@,
                        i as int,
                        j,
                    ) && spec_bit_is_set(loot@, j) && !spec_bit_is_set(loot_collected@, j)),
            decreases path@.len() - i,
        {
            let p = path[i];
            proof {
                lemma_cell_of(p.x as int, p.y as int);
            }
            let bit = p.y * 12 + p.x;
            let ghost pre = delta@;
            if bit_is_set(loot, bit) && !bit_is_set(loot_collected, bit) {
                bit_set(&mut delta, bit);
            }
            proof {
                assert forall|j: int| 0 <= j < 144 implies (spec_bit_is_set(delta@, j)
                    <==> path_covers_upto(path@, i + 1, j) && spec_bit_is_set(loot@, j)
                    && !spec_bit_is_set(loot_collected@, j)) by {
                    lemma_covers_step(path@, i as int, j);
                }
            }
            i = i + 1;
        }
        proof {
            assert forall|j: int| 0 <= j < 144 implies (path_covers_upto(
                path@,
                path@.len() as int,
                j,
            ) == path_covers(path@, j)) by {
                assert(path_covers_upto(path@, path@.len() as int, j) == path_covers(path@, j));
            }
        }
        delta
    }

    /// Whether the path enters a camera's Manhattan-distance zone.
    pub fn path_hits_camera(path: &Vec<Position>, camera: &Camera) -> (r: bool)
        requires
            forall|k: int| 0 <= k < path@.len() ==> (#[trigger] path@[k]).wf(),
            camera.wf(),
        ensures
            r == spec_path_hits_camera(path@, *camera),
    {
        let mut i: usize = 0;
        while i < path.len()
            invariant
                i <= path@.len(),
                forall|k: int| 0 <= k < path@.len() ==> (#[trigger] path@[k]).wf(),
                camera.wf(),
                forall|k: int|
                    0 <= k < i ==> !(abs_int((#[trigger] path@[k]).x - camera.x) + abs_int(
                        path@[k].y - camera.y,
                    ) <= camera.radius),
            decreases path@.len() - i,
        {
            let p = path[i];
            let dx = abs_diff(p.x, camera.x);
            let dy = abs_diff(p.y, camera.y);
            if dx + dy <= camera.radius {
                return true;
            }
            i = i + 1;
        }
        false
    }

    /// Whether the path crosses a laser's beam.
    pub fn path_hits_laser(path: &Vec<Position>, laser: &Laser) -> (r: bool)
        ensures
            r == spec_path_hits_laser(path@, *laser),
    {
        if laser.x1 == laser.x2 {
            let mut i: usize = 0;
            while i < path.len()
                invariant
                    i <= path@.len(),
                    laser.x1 == laser.x2,
                    forall|k: int|
                        0 <= k < i ==> !((#[trigger] path@[k]).x == laser.x1 && laser.y1
                            <= path@[k].y <= laser.y2),
                decreases path@.len() - i,
            {
                let p = path[i];
                if p.x == laser.x1 && p.y >= laser.y1 && p.y <= laser.y2 {
                    return true;
                }
                i = i + 1;
            }
            false
        } else if laser.y1 == laser.y2 {
            let mut i: usize = 0;
            while i < path.len()
                invariant
                    i <= path@.len(),
                    laser.x1 != laser.x2,
                    laser.y1 == laser.y2,
                    forall|k: int|
                        0 <= k < i ==> !((#[trigger] path@[k]).y == laser.y1 && laser.x1
                            <= path@[k].x <= laser.x2),
                decreases path@.len() - i,
            {
                let p = path[i];
                if p.y == laser.y1 && p.x >= laser.x1 && p.x <= laser.x2 {
                    return true;
                }
                i = i + 1;
            }
            false
        } else {
            false
        }
    }

    /// How many cameras and lasers the path crosses, each hazard counted
    /// once however many of its cells the path touches.
    pub fn compute_hazard_hits(
        path: &Vec<Position>,
        cameras: &Vec<Camera>,
        lasers: &Vec<Laser>,
    ) -> (r: (u32, u32))
        requires
            forall|k: int| 0 <= k < path@.len() ==> (#[trigger] path@[k]).wf(),
            forall|k: int| 0 <= k < cameras@.len() ==> (#[trigger] cameras@[k]).wf(),
            cameras@.len() <= u32::MAX,
            lasers@.len() <= u32::MAX,
        ensures
            r.0 == camera_hits_count(path@, cameras@, cameras@.len() as int),
            r.1 == laser_hits_count(path@, lasers@, lasers@.len() as int),
    {
        let mut camera_hits: u32 = 0;
        let mut ci: usize = 0;
        while ci < cameras.len()
            invariant
                ci <= cameras@.len(),
                cameras@.len() <= u32::MAX,
                forall|k: int| 0 <= k < path@.len() ==> (#[trigger] path@[k]).wf(),
                forall|k: int| 0 <= k < cameras@.len() ==> (#[trigger] cameras@[k]).wf(),
                camera_hits == camera_hits_count(path@, cameras@, ci as int),
                camera_hits <= ci,
            decreases cameras@.len() - ci,
        {
            let cam = &cameras[ci];
            if Self::path_hits_camera(path, cam) {
                camera_hits = camera_hits + 1;
            }
            ci = ci + 1;
        }

        let mut laser_hits: u32 = 0;
        let mut li: usize = 0;
        while li < lasers.len()
            invariant
                li <= lasers@.len(),
                lasers@.len() <= u32::MAX,
                laser_hits == laser_hits_count(path@, lasers@, li as int),
                laser_hits <= li,
            decreases lasers@.len() - li,
        {
            let laser = &lasers[li];
            if Self::path_hits_laser(path, laser) {
                laser_hits = laser_hits + 1;
            }
            li = li + 1;
        }
        (camera_hits, laser_hits)
    }

    /// Computes the canonical public-turn digest a proof must commit to.
    pub fn compute_turn_public_hash(env: &soroban_sdk::Env, turn: &TurnPublic) -> (r: [u8; 32])
        ensures
            r@ == keccak_of(turn_bytes(*turn)),
    {
        let mut b: Vec<u8> = Vec::new();
        push_u32_be(&mut b, turn.session_id);
        push_u32_be(&mut b, turn.turn_index);
        push_u64_be(&mut b, turn.player);
        push_u32_be(&mut b, turn.start_pos.x);
        push_u32_be(&mut b, turn.start_pos.y);
        push_u32_be(&mut b, turn.end_pos.x);
        push_u32_be(&mut b, turn.end_pos.y);
        push_u32_be(&mut b, turn.rolled_value);
        push_i128_be(&mut b, turn.score_delta);
        push_u32_be(&mut b, turn.camera_hits);
        push_u32_be(&mut b, turn.laser_hits);
        push_arr(&mut b, &turn.loot_collected_mask_delta);
        b.push(if turn.no_path_flag {
            1u8
        } else {
            0u8
        });
        push_arr(&mut b, &turn.state_hash_before);
        push_arr(&mut b, &turn.state_hash_after);
        let ghost prefix = b@;
        let mut i: usize = 0;
        while i < turn.path.len()
            invariant
                i <= turn.path@.len(),
                b@ == prefix + path_bytes(turn.path@, i as int),
            decreases turn.path@.len() - i,
        {
            let p = turn.path[i];
            push_u32_be(&mut b, p.x);
            push_u32_be(&mut b, p.y);
            proof {
                assert(b@ =~= prefix + path_bytes(turn.path@, i + 1));
            }
            i = i + 1;
        }
        proof {
            assert(b@ =~= turn_bytes(*turn));
        }
        keccak256(env, &b)
    }

    /// Exposes the canonical public-turn digest.
    pub fn hash_turn_public(env: &soroban_sdk::Env, turn: &TurnPublic) -> (r: [u8; 32])
        ensures
            r@ == keccak_of(turn_bytes(*turn)),
    {
        Self::compute_turn_public_hash(env, turn)
    }

    /// Runs every local check of a submitted turn, in protocol order, and
    /// returns the canonical public-turn digest the external verifier must
    /// see. The session record is not touched; on a passed deadline the
    /// shell is expected to run the end-check and reject the turn.
    pub fn prepare_turn(
        env: &soroban_sdk::Env,
        game: &Game,
        session_id: u32,
        player: u64,
        proof_blob: &Vec<u8>,
        turn: &TurnPublic,
        now_ts: u64,
    ) -> (r: Result<[u8; 32], Error>)
        requires
            game.wf(),
        ensures
            turn_check(*game, session_id, player, proof_blob@.len(), *turn, now_ts) is Some ==> r
                == Err::<[u8; 32], Error>(
                turn_check(*game, session_id, player, proof_blob@.len(), *turn, now_ts)->0,
            ),
            turn_check(*game, session_id, player, proof_blob@.len(), *turn, now_ts) is None ==> r
                is Ok && (r->Ok_0)@ == keccak_of(turn_bytes(*turn)),
    {
        if !matches!(game.status, GameStatus::Active) {
            return Err(Error::GameAlreadyEnded);
        }
        if game.deadline_ts.unwrap_or(0) <= now_ts {
            return Err(Error::TimerExpired);
        }
        if player != game.active_player {
            return Err(Error::NotActivePlayer);
        }
        if turn.player != player || turn.session_id != session_id {
            return Err(Error::InvalidTurnData);
        }
        if turn.turn_index != game.turn_index {
            return Err(Error::InvalidTurnData);
        }
        if proof_blob.len() == 0 {
            return Err(Error::ProofRequired);
        }
        let before_hash = compute_state_hash(env, session_id, game);
        if !bytes32_eq(&turn.state_hash_before, &before_hash) {
            return Err(Error::StateHashMismatch);
        }
        let current_pos = if player == game.player1 {
            game.player1_pos
        } else {
            game.player2_pos
        };
        if turn.start_pos != current_pos {
            return Err(Error::InvalidTurnData);
        }
        let session_seed = match &game.session_seed {
            Some(s) => *s,
            None => { return Err(Error::SeedsNotReady) },
        };
        let tag: u32 = if player == game.player1 {
            1
        } else {
            2
        };
        let rolled = roll_value(env, &session_seed, game.turn_index, tag);
        if rolled != turn.rolled_value {
            return Err(Error::InvalidMoveLength);
        }
        if turn.no_path_flag {
            if turn.start_pos != turn.end_pos || turn.score_delta != 0 || turn.camera_hits != 0
                || turn.laser_hits != 0 || crate::bits::has_any_set_bit(
                &turn.loot_collected_mask_delta,
            ) || turn.path.len() != 1 || turn.path[0] != turn.start_pos {
                return Err(Error::InvalidNoPathFlag);
            }
            if exists_any_path_len(&game.walls, &current_pos, 1) {
                return Err(Error::InvalidNoPathFlag);
            }
        } else {
            if !Self::validate_path(&game.walls, &turn.path, rolled) {
                return Err(Error::InvalidMoveLength);
            }
            let path_end = turn.path[turn.path.len() - 1];
            if path_end != turn.end_pos {
                return Err(Error::InvalidMoveLength);
            }
        }
        Ok(Self::compute_turn_public_hash(env, turn))
    }

    /// Applies a locally checked and externally proven turn: reconciles the
    /// declared loot delta, hazard hits and score delta with what the
    /// engine derives from the path, then commits position, score, fog,
    /// collected mask, turn index, active player and proof id, and finally
    /// holds the recomputed digest against the declared one. Any rejection
    /// leaves the record untouched; success is owed whenever the
    /// reconciliation passes and the declared after-digest is the digest
    /// of a state the application relation admits — the digest
    /// `simulate_state_hash_after` previews.
    pub fn apply_turn(
        env: &soroban_sdk::Env,
        game: &mut Game,
        session_id: u32,
        turn: &TurnPublic,
        proof_id: &[u8; 32],
    ) -> (r: Result<(), Error>)
        requires
            old(game).wf(),
            turn.player == old(game).player1 || turn.player == old(game).player2,
            turn.end_pos.wf(),
            old(game).turn_index < u32::MAX,
            old(game).cameras@.len() <= u32::MAX,
            old(game).lasers@.len() <= u32::MAX,
            forall|k: int| 0 <= k < turn.path@.len() ==> (#[trigger] turn.path@[k]).wf(),
        ensures
            r is Err ==> *final(game) == *old(game),
            apply_check(*old(game), *turn) is Some ==> r == Err::<(), Error>(
                apply_check(*old(game), *turn)->0,
            ),
            apply_check(*old(game), *turn) is None && r is Err ==> r == Err::<(), Error>(
                Error::StateHashMismatch,
            ),
            apply_check(*old(game), *turn) is None && r is Ok ==> applied_post(
                *old(game),
                *final(game),
                *turn,
                *proof_id,
            ) && keccak_of(state_bytes(session_id, *final(game))) == turn.state_hash_after@,
            apply_check(*old(game), *turn) is None && (exists|g2: Game|
                applied_post(*old(game), g2, *turn, *proof_id) && keccak_of(
                    state_bytes(session_id, g2),
                ) == turn.state_hash_after@) ==> r is Ok,
    {
        let delta: [u8; 18] = if turn.no_path_flag {
            let z: [u8; 18] = [0u8; 18];
            proof {
                assert(z@ =~= Seq::new(18, |i: int| 0u8));
                assert forall|j: int| 0 <= j < 144 implies !spec_bit_is_set(z@, j) by {
                    lemma_zero_bits_clear(j);
                }
            }
            z
        } else {
            Self::collect_loot_delta_from_path(&game.loot, &game.loot_collected, &turn.path)
        };
        proof {
            assert forall|j: int| 0 <= j < 144 implies (spec_bit_is_set(delta@, j) == delta_bit(
                *game,
                *turn,
                j,
            )) by {}
        }

        let mut collected = game.loot_collected;
        let mut loot_points: u32 = 0;
        let mut i: u32 = 0;
        while i < 144
            invariant
                i <= 144,
                forall|j: int| 0 <= j < 144 ==> (spec_bit_is_set(delta@, j) == delta_bit(
                    *game,
                    *turn,
                    j,
                )),
                forall|b: int|
                    0 <= b < 144 ==> (spec_bit_is_set(collected@, b) <==> spec_bit_is_set(
                        game.loot_collected@,
                        b,
                    ) || (spec_bit_is_set(delta@, b) && b < i)),
                loot_points == delta_count(*game, *turn, i as int),
                loot_points <= i,
                *game == *old(game),
            decreases 144 - i,
        {
            if bit_is_set(&delta, i) {
                if !bit_is_set(&game.loot, i) {
                    return Err(Error::LootOutOfBounds);
                }
                if bit_is_set(&collected, i) {
                    return Err(Error::LootAlreadyCollected);
                }
                bit_set(&mut collected, i);
                loot_points = loot_points + 1;
            }
            i = i + 1;
        }

        let hazard_hits: (u32, u32) = if turn.no_path_flag {
            (0, 0)
        } else {
            Self::compute_hazard_hits(&turn.path, &game.cameras, &game.lasers)
        };
        if turn.camera_hits != hazard_hits.0 || turn.laser_hits != hazard_hits.1 {
            return Err(Error::InvalidTurnData);
        }

        let mut mj: u32 = 0;
        while mj < 144
            invariant
                mj <= 144,
                forall|j: int| 0 <= j < 144 ==> (spec_bit_is_set(delta@, j) == delta_bit(
                    *game,
                    *turn,
                    j,
                )),
                forall|j: int|
                    0 <= j < mj ==> (spec_bit_is_set(turn.loot_collected_mask_delta@, j)
                        == spec_bit_is_set(delta@, j)),
                *game == *old(game),
            decreases 144 - mj,
        {
            if bit_is_set(&turn.loot_collected_mask_delta, mj) != bit_is_set(&delta, mj) {
                return Err(Error::InvalidTurnData);
            }
            mj = mj + 1;
        }

        let expected_delta: i128 = loot_points as i128 - (turn.camera_hits as i128)
            * CAMERA_PENALTY - (turn.laser_hits as i128) * LASER_PENALTY;
        if expected_delta != turn.score_delta {
            return Err(Error::InvalidScoreDelta);
        }

        let is_p1 = turn.player == game.player1;
        let moving_score: i128 = if is_p1 {
            game.player1_score
        } else {
            game.player2_score
        };
        if turn.score_delta >= 0 {
            if moving_score > i128::MAX - turn.score_delta {
                return Err(Error::InvalidScoreDelta);
            }
        } else {
            if moving_score < i128::MIN - turn.score_delta {
                return Err(Error::InvalidScoreDelta);
            }
        }
        let new_score: i128 = moving_score + turn.score_delta;

        let saved_collected = game.loot_collected;
        let saved_p1_pos = game.player1_pos;
        let saved_p2_pos = game.player2_pos;
        let saved_p1_score = game.player1_score;
        let saved_p2_score = game.player2_score;
        let saved_fog_p1 = game.fog_p1;
        let saved_fog_p2 = game.fog_p2;
        let saved_active = game.active_player;
        let saved_turn_index = game.turn_index;
        let saved_proof = game.last_proof_id;

        game.loot_collected = collected;
        if is_p1 {
            game.player1_pos = turn.end_pos;
            game.player1_score = new_score;
            let mut fog = game.fog_p1;
            reveal_fog_4x4(&mut fog, turn.end_pos.x, turn.end_pos.y);
            game.fog_p1 = fog;
            game.active_player = game.player2;
        } else {
            game.player2_pos = turn.end_pos;
            game.player2_score = new_score;
            let mut fog = game.fog_p2;
            reveal_fog_4x4(&mut fog, turn.end_pos.x, turn.end_pos.y);
            game.fog_p2 = fog;
            game.active_player = game.player1;
        }
        game.turn_index = game.turn_index + 1;
        game.last_proof_id = Some(*proof_id);

        let ghost mine = *game;
        let after_hash = compute_state_hash(env, session_id, game);
        if !bytes32_eq(&after_hash, &turn.state_hash_after) {
            proof {
                assert(applied_post(*old(game), mine, *turn, *proof_id));
                if exists|g2: Game|
                    applied_post(*old(game), g2, *turn, *proof_id) && keccak_of(
                        state_bytes(session_id, g2),
                    ) == turn.state_hash_after@ {
                    let g2 = choose|g2: Game|
                        applied_post(*old(game), g2, *turn, *proof_id) && keccak_of(
                            state_bytes(session_id, g2),
                        ) == turn.state_hash_after@;
                    lemma_applied_post_determines_digest(
                        *old(game),
                        mine,
                        g2,
                        *turn,
                        *proof_id,
                        session_id,
                    );
                }
            }
            game.loot_collected = saved_collected;
            game.player1_pos = saved_p1_pos;
            game.player2_pos = saved_p2_pos;
            game.player1_score = saved_p1_score;
            game.player2_score = saved_p2_score;
            game.fog_p1 = saved_fog_p1;
            game.fog_p2 = saved_fog_p2;
            game.active_player = saved_active;
            game.turn_index = saved_turn_index;
            game.last_proof_id = saved_proof;
            return Err(Error::StateHashMismatch);
        }
        Ok(())
    }
}

/// Whether some cell among the first `n` of `path` occupies bit `j`.
pub open spec fn path_covers_upto(path: Seq<Position>, n: int, j: int) -> bool {
    exists|k: int|
        0 <= k < n && k < path.len() && cell_of((#[trigger] path[k]).x as int, path[k].y as int)
            == j
}

/// Extending the scanned prefix by one cell extends coverage by exactly
/// that cell's bit.
proof fn lemma_covers_step(path: Seq<Position>, i: int, j: int)
    requires
        0 <= i < path.len(),
        0 <= j < 144,
    ensures
        path_covers_upto(path, i + 1, j) == (path_covers_upto(path, i, j) || cell_of(
            path[i].x as int,
            path[i].y as int,
        ) == j),
{
    if path_covers_upto(path, i + 1, j) {
        let k = choose|k: int|
            0 <= k < i + 1 && k < path.len() && cell_of(path[k].x as int, path[k].y as int) == j;
        if k < i {
            assert(path_covers_upto(path, i, j));
        }
    }
    if path_covers_upto(path, i, j) {
        let k = choose|k: int|
            0 <= k < i && k < path.len() && cell_of(path[k].x as int, path[k].y as int) == j;
        assert(0 <= k < i + 1 && k < path.len() && cell_of(path[k].x as int, path[k].y as int)
            == j);
    }
    if cell_of(path[i].x as int, path[i].y as int) == j {
        assert(0 <= i < i + 1 && i < path.len() && cell_of(path[i].x as int, path[i].y as int)
            == j);
    }
}

} // verus!
