//! Session lifecycle: creation, commit-reveal, match start and termination.
//!
//! Every mutating entry point is a transition on a `Game` record that
//! either succeeds with the exact successor state or fails with a typed
//! rejection and leaves the record untouched. The ledger-facing shell
//! around the library loads the record, calls one transition, and stores
//! the result.

use vstd::prelude::*;
use crate::bits::{is_full_collection, spec_bit_is_set};
use crate::crypto::keccak_of;
use crate::engine::{
    compute_state_hash, derive_session_seed, fog_revealed, reveal_fog_4x4, roll_value,
    seed_derivation_bytes, spec_roll, state_bytes, GAME_SECONDS,
};
use crate::mapgen::{cameras_state, generate_map, lasers_state, loot_state, walls_state};
use crate::types::{Error, Game, GameStatus, Position};

verus! {

/// The deterministic game-state engine's ledger entry points, grouped as
/// methods of one protocol type.
pub struct HeistContract;

/// The starting state of a session: placeholder board, spawn positions,
/// commitments stored, waiting for both reveals.
pub open spec fn is_initial_game(
    g: Game,
    player1: u64,
    player2: u64,
    player1_points: i128,
    player2_points: i128,
    p1_seed_commit: [u8; 32],
    p2_seed_commit: [u8; 32],
) -> bool {
    &&& g.player1 == player1
    &&& g.player2 == player2
    &&& g.player1_points == player1_points
    &&& g.player2_points == player2_points
    &&& g.status is WaitingReveal
    &&& g.p1_seed_commit == p1_seed_commit
    &&& g.p2_seed_commit == p2_seed_commit
    &&& g.p1_seed_reveal is None
    &&& g.p2_seed_reveal is None
    &&& g.session_seed is None
    &&& g.started_at_ts is None
    &&& g.deadline_ts is None
    &&& g.turn_index == 0
    &&& g.active_player == player1
    &&& g.player1_pos == (Position { x: 1, y: 1 })
    &&& g.player2_pos == (Position { x: 10, y: 10 })
    &&& g.player1_score == 0
    &&& g.player2_score == 0
    &&& g.walls@ == Seq::new(18, |i: int| 0u8)
    &&& g.loot@ == Seq::new(18, |i: int| 0u8)
    &&& g.loot_collected@ == Seq::new(18, |i: int| 0u8)
    &&& g.fog_p1@ == Seq::new(18, |i: int| 0u8)
    &&& g.fog_p2@ == Seq::new(18, |i: int| 0u8)
    &&& g.cameras@ == Seq::<crate::types::Camera>::empty()
    &&& g.lasers@ == Seq::<crate::types::Laser>::empty()
    &&& g.winner is None
    &&& g.last_proof_id is None
}

/// What `begin_match` promises of the successor state: the board is the
/// deterministic function of the derived seed, the fog opens around both
/// spawns, the clock is armed and play passes to player one.
pub open spec fn begin_match_post(g: Game, g2: Game, session_id: u32, now_ts: u64) -> bool {
    let seed = keccak_of(
        seed_derivation_bytes(session_id, (g.p1_seed_reveal->0)@, (g.p2_seed_reveal->0)@),
    );
    &&& g2.session_seed is Some && (g2.session_seed->0)@ == seed
    &&& g2.walls@ == walls_state(seed, 500).0
    &&& g2.loot@ == loot_state(seed, g2.walls@, 1000).0
    &&& g2.cameras@ == cameras_state(seed, 3)
    &&& g2.lasers@ == lasers_state(seed, 2)
    &&& g2.loot_collected@ == Seq::new(18, |i: int| 0u8)
    &&& g2.started_at_ts == Some(now_ts)
    &&& g2.deadline_ts is Some && g2.deadline_ts->0 == now_ts + GAME_SECONDS
    &&& g2.status is Active
    &&& g2.active_player == g.player1
    &&& g2.turn_index == 0
    &&& fog_revealed(g.fog_p1@, g2.fog_p1@, g.player1_pos.x as int, g.player1_pos.y as int)
    &&& fog_revealed(g.fog_p2@, g2.fog_p2@, g.player2_pos.x as int, g.player2_pos.y as int)
    &&& g2.player1 == g.player1 && g2.player2 == g.player2
    &&& g2.player1_points == g.player1_points && g2.player2_points == g.player2_points
    &&& g2.p1_seed_commit == g.p1_seed_commit && g2.p2_seed_commit == g.p2_seed_commit
    &&& g2.p1_seed_reveal == g.p1_seed_reveal && g2.p2_seed_reveal == g.p2_seed_reveal
    &&& g2.player1_pos == g.player1_pos && g2.player2_pos == g.player2_pos
    &&& g2.player1_score == g.player1_score && g2.player2_score == g.player2_score
    &&& g2.winner == g.winner && g2.last_proof_id == g.last_proof_id
    &&& g2.wf()
}

/// Whether a session qualifies for termination at time `now_ts`: the global
/// deadline has passed (an unarmed deadline never passes) or every loot
/// cell has been collected.
pub open spec fn end_condition(g: Game, now_ts: u64) -> bool {
    ||| now_ts >= (if g.deadline_ts is Some {
        g.deadline_ts->0
    } else {
        u64::MAX
    })
    ||| (forall|i: int|
        0 <= i < 144 && spec_bit_is_set(g.loot@, i) ==> spec_bit_is_set(g.loot_collected@, i))
}

impl HeistContract {
    /// Creates a new two-player session. `existing` is the record already
    /// stored under this session id, if any: creation is refused when the
    /// session exists. Two identical players are refused by precondition;
    /// the shell rejects such a call before reaching the library.
    pub fn start_game(
        existing: &Option<Game>,
        session_id: u32,
        player1: u64,
        player2: u64,
        player1_points: i128,
        player2_points: i128,
        p1_seed_commit: [u8; 32],
        p2_seed_commit: [u8; 32],
    ) -> (r: Result<Game, Error>)
        requires
            player1 != player2,
        ensures
            existing is Some ==> r == Err::<Game, Error>(Error::GameAlreadyStarted),
            existing is None ==> r is Ok && is_initial_game(
                r->Ok_0,
                player1,
                player2,
                player1_points,
                player2_points,
                p1_seed_commit,
                p2_seed_commit,
            ) && (r->Ok_0).wf(),
    {
        if existing.is_some() {
            return Err(Error::GameAlreadyStarted);
        }
        let zero: [u8; 18] = [0u8; 18];
        let game = Game {
            player1,
            player2,
            player1_points,
            player2_points,
            status: GameStatus::WaitingReveal,
            p1_seed_commit,
            p2_seed_commit,
            p1_seed_reveal: None,
            p2_seed_reveal: None,
            session_seed: None,
            started_at_ts: None,
            deadline_ts: None,
            turn_index: 0,
            active_player: player1,
            player1_pos: Position { x: 1, y: 1 },
            player2_pos: Position { x: 10, y: 10 },
            player1_score: 0,
            player2_score: 0,
            walls: zero,
            loot: zero,
            loot_collected: zero,
            fog_p1: zero,
            fog_p2: zero,
            cameras: Vec::new(),
            lasers: Vec::new(),
            winner: None,
            last_proof_id: None,
        };
        proof {
            assert(zero@ =~= Seq::new(18, |i: int| 0u8));
            assert(game.cameras@ =~= Seq::<crate::types::Camera>::empty());
            assert(game.lasers@ =~= Seq::<crate::types::Laser>::empty());
        }
        Ok(game)
    }

    /// Accepts a player's revealed secret while the session waits for
    /// reveals: exactly once per player, and only when its hash equals the
    /// stored commitment. On rejection the record is unchanged.
    pub fn reveal_seed(
        env: &soroban_sdk::Env,
        game: &mut Game,
        player: u64,
        seed_secret: &[u8; 32],
    ) -> (r: Result<(), Error>)
        ensures
            r is Err ==> *final(game) == *old(game),
            !(old(game).status is WaitingReveal) ==> r == Err::<(), Error>(Error::InvalidStatus),
            old(game).status is WaitingReveal && player == old(game).player1 ==> (if old(
                game,
            ).p1_seed_reveal is Some {
                r == Err::<(), Error>(Error::SeedAlreadyRevealed)
            } else if keccak_of(seed_secret@) != old(game).p1_seed_commit@ {
                r == Err::<(), Error>(Error::InvalidSeedReveal)
            } else {
                r is Ok && *final(game) == (Game {
                    p1_seed_reveal: Some(*seed_secret),
                    ..*old(game)
                })
            }),
            old(game).status is WaitingReveal && player != old(game).player1 && player == old(
                game,
            ).player2 ==> (if old(game).p2_seed_reveal is Some {
                r == Err::<(), Error>(Error::SeedAlreadyRevealed)
            } else if keccak_of(seed_secret@) != old(game).p2_seed_commit@ {
                r == Err::<(), Error>(Error::InvalidSeedReveal)
            } else {
                r is Ok && *final(game) == (Game {
                    p2_seed_reveal: Some(*seed_secret),
                    ..*old(game)
                })
            }),
            old(game).status is WaitingReveal && player != old(game).player1 && player != old(
                game,
            ).player2 ==> r == Err::<(), Error>(Error::NotPlayer),
    {
        if !matches!(game.status, GameStatus::WaitingReveal) {
            return Err(Error::InvalidStatus);
        }
        let reveal_hash = crate::engine::commit_hash(env, seed_secret);
        if player == game.player1 {
            if game.p1_seed_reveal.is_some() {
                return Err(Error::SeedAlreadyRevealed);
            }
            if !bytes32_eq(&reveal_hash, &game.p1_seed_commit) {
                return Err(Error::InvalidSeedReveal);
            }
            game.p1_seed_reveal = Some(*seed_secret);
            Ok(())
        } else if player == game.player2 {
            if game.p2_seed_reveal.is_some() {
                return Err(Error::SeedAlreadyRevealed);
            }
            if !bytes32_eq(&reveal_hash, &game.p2_seed_commit) {
                return Err(Error::InvalidSeedReveal);
            }
            game.p2_seed_reveal = Some(*seed_secret);
            Ok(())
        } else {
            Err(Error::NotPlayer)
        }
    }

    /// Starts the match once both secrets are revealed: derives the session
    /// seed, generates the deterministic board, opens both players' initial
    /// fog and arms the match deadline. On rejection the record is
    /// unchanged.
    pub fn begin_match(
        env: &soroban_sdk::Env,
        game: &mut Game,
        session_id: u32,
        now_ts: u64,
    ) -> (r: Result<(), Error>)
        requires
            old(game).wf(),
            now_ts + GAME_SECONDS <= u64::MAX,
        ensures
            r is Err ==> *final(game) == *old(game),
            !(old(game).status is WaitingReveal) ==> r == Err::<(), Error>(Error::InvalidStatus),
            old(game).status is WaitingReveal && (old(game).p1_seed_reveal is None || old(
                game,
            ).p2_seed_reveal is None) ==> r == Err::<(), Error>(Error::SeedsNotReady),
            old(game).status is WaitingReveal && old(game).p1_seed_reveal is Some && old(
                game,
            ).p2_seed_reveal is Some ==> r is Ok && begin_match_post(
                *old(game),
                *final(game),
                session_id,
                now_ts,
            ),
    {
        if !matches!(game.status, GameStatus::WaitingReveal) {
            return Err(Error::InvalidStatus);
        }
        let p1 = match &game.p1_seed_reveal {
            Some(s) => *s,
            None => { return Err(Error::SeedsNotReady) },
        };
        let p2 = match &game.p2_seed_reveal {
            Some(s) => *s,
            None => { return Err(Error::SeedsNotReady) },
        };

        let session_seed = derive_session_seed(env, session_id, &p1, &p2);
        let (walls, loot, cameras, lasers) = generate_map(env, &session_seed);

        game.session_seed = Some(session_seed);
        game.walls = walls;
        game.loot = loot;
        game.loot_collected = [0u8; 18];
        game.cameras = cameras;
        game.lasers = lasers;
        game.started_at_ts = Some(now_ts);
        game.deadline_ts = Some(now_ts + GAME_SECONDS);
        game.status = GameStatus::Active;
        game.active_player = game.player1;
        game.turn_index = 0;

        let mut fog1 = game.fog_p1;
        let mut fog2 = game.fog_p2;
        reveal_fog_4x4(&mut fog1, game.player1_pos.x, game.player1_pos.y);
        reveal_fog_4x4(&mut fog2, game.player2_pos.x, game.player2_pos.y);
        game.fog_p1 = fog1;
        game.fog_p2 = fog2;
        proof {
            assert(game.loot_collected@ =~= Seq::new(18, |i: int| 0u8));
            crate::mapgen::lemma_cameras_wf(session_seed@, 3);
            crate::mapgen::lemma_lasers_wf(session_seed@, 2);
        }
        Ok(())
    }

    /// Ends the session when the global deadline has passed or every loot
    /// cell is collected; idempotent once ended and a no-op otherwise. The
    /// result is `Some(player1_won)` exactly when this call ended the
    /// session, so the shell knows to notify the hub. Ties favor player
    /// one.
    pub fn end_if_finished(game: &mut Game, now_ts: u64) -> (r: Option<bool>)
        ensures
            old(game).status is Ended ==> *final(game) == *old(game) && r is None,
            !(old(game).status is Ended) && !end_condition(*old(game), now_ts) ==> *final(game)
                == *old(game) && r is None,
            !(old(game).status is Ended) && end_condition(*old(game), now_ts) ==> {
                let won = old(game).player1_score >= old(game).player2_score;
                &&& r == Some(won)
                &&& *final(game) == (Game {
                    status: GameStatus::Ended,
                    winner: Some(
                        if won {
                            old(game).player1
                        } else {
                            old(game).player2
                        },
                    ),
                    ..*old(game)
                })
            },
    {
        if matches!(game.status, GameStatus::Ended) {
            return None;
        }
        let deadline = game.deadline_ts.unwrap_or(u64::MAX);
        let timeout = now_ts >= deadline;
        let all_loot_collected = is_full_collection(&game.loot, &game.loot_collected);
        if !timeout && !all_loot_collected {
            return None;
        }
        let player1_won = game.player1_score >= game.player2_score;
        game.winner = Some(
            if player1_won {
                game.player1
            } else {
                game.player2
            },
        );
        game.status = GameStatus::Ended;
        Some(player1_won)
    }

    /// Exposes the current chained state digest.
    pub fn get_state_hash(env: &soroban_sdk::Env, session_id: u32, game: &Game) -> (r: [u8; 32])
        ensures
            r@ == keccak_of(state_bytes(session_id, *game)),
    {
        compute_state_hash(env, session_id, game)
    }

    /// The dice value the named player must use at the current turn index.
    pub fn get_expected_roll(env: &soroban_sdk::Env, game: &Game, player: u64) -> (r: Result<
        u32,
        Error,
    >)
        ensures
            !(game.status is Active) ==> r == Err::<u32, Error>(Error::InvalidStatus),
            game.status is Active && player != game.player1 && player != game.player2 ==> r
                == Err::<u32, Error>(Error::NotPlayer),
            game.status is Active && (player == game.player1 || player == game.player2)
                && game.session_seed is None ==> r == Err::<u32, Error>(Error::SeedsNotReady),
            game.status is Active && (player == game.player1 || player == game.player2)
                && game.session_seed is Some ==> r is Ok && r->Ok_0 == spec_roll(
                (game.session_seed->0)@,
                game.turn_index,
                if player == game.player1 {
                    1u32
                } else {
                    2u32
                },
            ) && 1 <= r->Ok_0 <= 6,
    {
        if !matches!(game.status, GameStatus::Active) {
            return Err(Error::InvalidStatus);
        }
        let player_tag: u32 = if player == game.player1 {
            1
        } else if player == game.player2 {
            2
        } else {
            return Err(Error::NotPlayer);
        };
        let session_seed = match &game.session_seed {
            Some(s) => *s,
            None => { return Err(Error::SeedsNotReady) },
        };
        Ok(roll_value(env, &session_seed, game.turn_index, player_tag))
    }
}

/// Compares two 32-byte values.
pub fn bytes32_eq(a: &[u8; 32], b: &[u8; 32]) -> (r: bool)
    ensures
        r == (a@ == b@),
{
    let mut i: usize = 0;
    while i < 32
        invariant
            i <= 32,
            forall|j: int| 0 <= j < i ==> a@[j] == b@[j],
        decreases 32 - i,
    {
        if a[i] != b[i] {
            return false;
        }
        i = i + 1;
    }
    proof {
        assert(a@ =~= b@);
    }
    true
}

} // verus!
