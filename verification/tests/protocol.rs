use heist::bits::bit_is_set;
use heist::bits::bit_set;
use heist::engine::{commit_hash, derive_session_seed};
use heist::protocol::HeistContract;
use heist::types::{Error, Game, GameStatus, Position, TurnPublic};
use soroban_sdk::testutils::EnvTestConfig;
use soroban_sdk::{Address, Env};

fn test_env() -> Env {
    Env::new_with_config(EnvTestConfig { capture_snapshot_at_drop: false })
}

struct NoopContract;

impl soroban_sdk::testutils::ContractFunctionSet for NoopContract {
    fn call(
        &self,
        _func: &str,
        _env: soroban_sdk::Env,
        _args: &[soroban_sdk::Val],
    ) -> Option<soroban_sdk::Val> {
        None
    }
}

#[allow(deprecated)]
fn frame_addr(env: &Env) -> Address {
    env.register_contract(None, NoopContract)
}

const S1: [u8; 32] = [1u8; 32];
const S2: [u8; 32] = [2u8; 32];
const START_TS: u64 = 1000;

fn new_game(env: &Env, session_id: u32, stakes: i128) -> Game {
    let c1 = commit_hash(env, &S1);
    let c2 = commit_hash(env, &S2);
    HeistContract::start_game(&None, session_id, 1, 2, stakes, stakes, c1, c2).unwrap()
}

fn active_game(env: &Env, session_id: u32, stakes: i128) -> Game {
    let mut game = new_game(env, session_id, stakes);
    HeistContract::reveal_seed(env, &mut game, 1, &S1).unwrap();
    HeistContract::reveal_seed(env, &mut game, 2, &S2).unwrap();
    HeistContract::begin_match(env, &mut game, session_id, START_TS).unwrap();
    game
}

/// Builds a fully consistent single-step turn for the active player and
/// returns it together with the expected post-turn digest.
fn build_step_turn(env: &Env, frame: &Address, game: &mut Game, session_id: u32, player: u64, end: Position) -> TurnPublic {
    let start = if player == game.player1 { game.player1_pos } else { game.player2_pos };
    let rolled = env.as_contract(frame, || {
        HeistContract::get_expected_roll(env, game, player).unwrap()
    });
    let path = vec![start, end];
    let delta = HeistContract::get_path_loot_delta(game, &path).unwrap();
    let (cam, las) = HeistContract::get_path_hazards(game, &path).unwrap();
    let mut loot_points: i128 = 0;
    for i in 0..144u32 {
        if bit_is_set(&delta, i) {
            loot_points += 1;
        }
    }
    let score_delta = loot_points - cam as i128 - 2 * las as i128;
    let before = HeistContract::get_state_hash(env, session_id, game);
    let mut turn = TurnPublic {
        session_id,
        turn_index: game.turn_index,
        player,
        start_pos: start,
        end_pos: end,
        rolled_value: rolled,
        score_delta,
        camera_hits: cam,
        laser_hits: las,
        loot_collected_mask_delta: delta,
        no_path_flag: false,
        state_hash_before: before,
        state_hash_after: [0u8; 32],
        path,
    };
    let after = HeistContract::simulate_state_hash_after(env, game, session_id, &turn).unwrap();
    turn.state_hash_after = after;
    turn
}

fn submit(env: &Env, frame: &Address, game: &mut Game, session_id: u32, turn: &TurnPublic, now: u64) -> Result<[u8; 32], Error> {
    let blob = vec![1u8; 8];
    let expected_hash = env.as_contract(frame, || {
        HeistContract::prepare_turn(env, game, session_id, turn.player, &blob, turn, now)
    })?;
    // The external verifier would now check the proof against expected_hash;
    // its identifier stands in for a successful verification here.
    let proof_id = [9u8; 32];
    HeistContract::apply_turn(env, game, session_id, turn, &proof_id)?;
    Ok(expected_hash)
}

#[test]
fn start_reveal_begin_flow() {
    let env = test_env();
    let session_id = 100u32;
    let mut game = new_game(&env, session_id, 50);
    assert_eq!(game.status, GameStatus::WaitingReveal);
    assert_eq!(game.player1_points, 50);
    HeistContract::reveal_seed(&env, &mut game, 1, &S1).unwrap();
    HeistContract::reveal_seed(&env, &mut game, 2, &S2).unwrap();
    HeistContract::begin_match(&env, &mut game, session_id, START_TS).unwrap();
    assert_eq!(game.status, GameStatus::Active);
    assert_eq!(game.active_player, 1);
    assert_eq!(game.deadline_ts, Some(START_TS + 300));
    assert_eq!(game.session_seed, Some(derive_session_seed(&env, session_id, &S1, &S2)));
}

#[test]
fn tie_break_player1_on_timeout() {
    let env = test_env();
    let session_id = 101u32;
    let mut game = active_game(&env, session_id, 50);
    // Not yet expired: no-op.
    assert_eq!(HeistContract::end_if_finished(&mut game, START_TS + 1), None);
    assert_eq!(game.status, GameStatus::Active);
    // Past the deadline with equal scores: player one wins the tie.
    let ended = HeistContract::end_if_finished(&mut game, START_TS + 601);
    assert_eq!(ended, Some(true));
    assert_eq!(game.status, GameStatus::Ended);
    assert_eq!(game.winner, Some(1));
    // Idempotent once ended.
    assert_eq!(HeistContract::end_if_finished(&mut game, START_TS + 602), None);
}

#[test]
fn expected_roll_matches_engine_formula() {
    let env = test_env();
    let frame = frame_addr(&env);
    let session_id = 102u32;
    let game = active_game(&env, session_id, 10);
    let seed = derive_session_seed(&env, session_id, &S1, &S2);
    let (expected_p1, expected_p2, got_p1, got_p2) = env.as_contract(&frame, || {
        (
            heist::engine::roll_value(&env, &seed, 0, 1),
            heist::engine::roll_value(&env, &seed, 0, 2),
            HeistContract::get_expected_roll(&env, &game, 1).unwrap(),
            HeistContract::get_expected_roll(&env, &game, 2).unwrap(),
        )
    });
    assert_eq!(got_p1, expected_p1);
    assert_eq!(got_p2, expected_p2);
}

#[test]
fn submit_turn_updates_state() {
    let env = test_env();
    let frame = frame_addr(&env);
    let session_id = 103u32;
    let mut game = active_game(&env, session_id, 10);
    let turn = build_step_turn(&env, &frame, &mut game, session_id, 1, Position { x: 2, y: 1 });
    submit(&env, &frame, &mut game, session_id, &turn, START_TS + 1).unwrap();
    assert_eq!(game.turn_index, 1);
    assert_eq!(game.player1_pos, Position { x: 2, y: 1 });
    assert_eq!(game.player1_score, turn.score_delta);
    assert_eq!(game.active_player, 2);
    assert_eq!(game.last_proof_id, Some([9u8; 32]));
    assert_eq!(HeistContract::get_state_hash(&env, session_id, &game), turn.state_hash_after);
}

#[test]
fn single_step_collects_loot_and_alternates() {
    let env = test_env();
    let frame = frame_addr(&env);
    let session_id = 200u32;
    let mut game = active_game(&env, session_id, 50);
    // Place a loot item on the empty, non-hazard cell next to player one's
    // spawn so the single step collects exactly one item.
    bit_set(&mut game.loot, 1 * 12 + 2);
    game.cameras = Vec::new();
    game.lasers = Vec::new();
    let digest_before = HeistContract::get_state_hash(&env, session_id, &game);

    let turn = build_step_turn(&env, &frame, &mut game, session_id, 1, Position { x: 2, y: 1 });
    assert_eq!(turn.score_delta, 1);
    submit(&env, &frame, &mut game, session_id, &turn, START_TS + 1).unwrap();

    assert_eq!(game.player1_score, 1);
    let mut new_bits = 0;
    for i in 0..144u32 {
        if bit_is_set(&game.loot_collected, i) {
            new_bits += 1;
            assert_eq!(i, 1 * 12 + 2);
        }
    }
    assert_eq!(new_bits, 1);
    assert_eq!(game.active_player, 2);
    assert_ne!(HeistContract::get_state_hash(&env, session_id, &game), digest_before);
}

#[test]
fn stale_before_digest_is_rejected_without_side_effects() {
    let env = test_env();
    let frame = frame_addr(&env);
    let session_id = 201u32;
    let mut game = active_game(&env, session_id, 50);
    let stale = HeistContract::get_state_hash(&env, session_id, &game);
    let first = build_step_turn(&env, &frame, &mut game, session_id, 1, Position { x: 2, y: 1 });
    submit(&env, &frame, &mut game, session_id, &first, START_TS + 1).unwrap();

    // A second turn built against the pre-turn state carries a stale digest.
    let mut second = build_step_turn(&env, &frame, &mut game, session_id, 2, Position { x: 9, y: 10 });
    second.state_hash_before = stale;
    let digest = HeistContract::get_state_hash(&env, session_id, &game);
    let err = submit(&env, &frame, &mut game, session_id, &second, START_TS + 2).unwrap_err();
    assert_eq!(err, Error::StateHashMismatch);
    assert_eq!(HeistContract::get_state_hash(&env, session_id, &game), digest);
    assert_eq!(game.turn_index, 1);
}

#[test]
fn overlapping_loot_delta_is_rejected() {
    let env = test_env();
    let frame = frame_addr(&env);
    let session_id = 202u32;
    let mut game = active_game(&env, session_id, 50);
    bit_set(&mut game.loot, 1 * 12 + 2);
    game.cameras = Vec::new();
    game.lasers = Vec::new();
    let first = build_step_turn(&env, &frame, &mut game, session_id, 1, Position { x: 2, y: 1 });
    submit(&env, &frame, &mut game, session_id, &first, START_TS + 1).unwrap();
    assert!(bit_is_set(&game.loot_collected, 1 * 12 + 2));

    // Player two claims the already-collected cell in their delta mask.
    let mut second = build_step_turn(&env, &frame, &mut game, session_id, 2, Position { x: 9, y: 10 });
    bit_set(&mut second.loot_collected_mask_delta, 1 * 12 + 2);
    let err = submit(&env, &frame, &mut game, session_id, &second, START_TS + 2).unwrap_err();
    assert_eq!(err, Error::InvalidTurnData);
    assert_eq!(game.turn_index, 1);
}

#[test]
fn reveal_rejections() {
    let env = test_env();
    let session_id = 203u32;
    let mut game = new_game(&env, session_id, 50);
    assert_eq!(
        HeistContract::reveal_seed(&env, &mut game, 3, &S1),
        Err(Error::NotPlayer)
    );
    assert_eq!(
        HeistContract::reveal_seed(&env, &mut game, 1, &[7u8; 32]),
        Err(Error::InvalidSeedReveal)
    );
    HeistContract::reveal_seed(&env, &mut game, 1, &S1).unwrap();
    assert_eq!(
        HeistContract::reveal_seed(&env, &mut game, 1, &S1),
        Err(Error::SeedAlreadyRevealed)
    );
    assert_eq!(
        HeistContract::begin_match(&env, &mut game, session_id, START_TS),
        Err(Error::SeedsNotReady)
    );
    HeistContract::reveal_seed(&env, &mut game, 2, &S2).unwrap();
    HeistContract::begin_match(&env, &mut game, session_id, START_TS).unwrap();
    assert_eq!(
        HeistContract::reveal_seed(&env, &mut game, 1, &S1),
        Err(Error::InvalidStatus)
    );
}

#[test]
fn start_game_rejects_existing_session() {
    let env = test_env();
    let game = new_game(&env, 204, 50);
    let c1 = commit_hash(&env, &S1);
    let c2 = commit_hash(&env, &S2);
    let r = HeistContract::start_game(&Some(game), 204, 1, 2, 50, 50, c1, c2);
    assert!(matches!(r, Err(Error::GameAlreadyStarted)));
}

#[test]
fn submit_rejections() {
    let env = test_env();
    let frame = frame_addr(&env);
    let session_id = 205u32;
    let mut game = active_game(&env, session_id, 50);
    let good = build_step_turn(&env, &frame, &mut game, session_id, 1, Position { x: 2, y: 1 });
    let blob = vec![1u8; 8];

    // Wrong caller: player two is not the active player.
    let err = env.as_contract(&frame, || {
        HeistContract::prepare_turn(&env, &game, session_id, 2, &blob, &good, START_TS + 1)
    }).unwrap_err();
    assert_eq!(err, Error::NotActivePlayer);

    // Empty proof blob.
    let err = env.as_contract(&frame, || {
        HeistContract::prepare_turn(&env, &game, session_id, 1, &Vec::new(), &good, START_TS + 1)
    }).unwrap_err();
    assert_eq!(err, Error::ProofRequired);

    // Past the deadline.
    let err = env.as_contract(&frame, || {
        HeistContract::prepare_turn(&env, &game, session_id, 1, &blob, &good, START_TS + 300)
    }).unwrap_err();
    assert_eq!(err, Error::TimerExpired);

    // Wrong dice value.
    let mut bad_roll = good.clone();
    bad_roll.rolled_value = if good.rolled_value == 6 { 1 } else { good.rolled_value + 1 };
    let err = env.as_contract(&frame, || {
        HeistContract::prepare_turn(&env, &game, session_id, 1, &blob, &bad_roll, START_TS + 1)
    }).unwrap_err();
    assert_eq!(err, Error::InvalidMoveLength);

    // Diagonal step.
    let mut diagonal = good.clone();
    diagonal.path = vec![Position { x: 1, y: 1 }, Position { x: 2, y: 2 }];
    diagonal.end_pos = Position { x: 2, y: 2 };
    let err = env.as_contract(&frame, || {
        HeistContract::prepare_turn(&env, &game, session_id, 1, &blob, &diagonal, START_TS + 1)
    }).unwrap_err();
    assert_eq!(err, Error::InvalidMoveLength);

    // A path of only the start cell is no real move.
    let mut too_short = good.clone();
    too_short.path = vec![Position { x: 1, y: 1 }];
    too_short.end_pos = Position { x: 1, y: 1 };
    let err = env.as_contract(&frame, || {
        HeistContract::prepare_turn(&env, &game, session_id, 1, &blob, &too_short, START_TS + 1)
    }).unwrap_err();
    assert_eq!(err, Error::InvalidMoveLength);

    // A path longer than budget + 1 cells.
    let mut too_long = good.clone();
    let mut cells = Vec::new();
    let mut x = 1u32;
    let mut y = 1u32;
    cells.push(Position { x, y });
    for step in 0..(good.rolled_value + 1) {
        if step % 2 == 0 {
            x += 1;
        } else {
            y += 1;
        }
        cells.push(Position { x, y });
    }
    too_long.end_pos = cells[cells.len() - 1];
    too_long.path = cells;
    let err = env.as_contract(&frame, || {
        HeistContract::prepare_turn(&env, &game, session_id, 1, &blob, &too_long, START_TS + 1)
    }).unwrap_err();
    assert_eq!(err, Error::InvalidMoveLength);

    // A no-path claim while a single step is clearly possible.
    let mut no_path = good.clone();
    no_path.no_path_flag = true;
    no_path.end_pos = no_path.start_pos;
    no_path.score_delta = 0;
    no_path.camera_hits = 0;
    no_path.laser_hits = 0;
    no_path.loot_collected_mask_delta = [0u8; 18];
    no_path.path = vec![no_path.start_pos];
    let err = env.as_contract(&frame, || {
        HeistContract::prepare_turn(&env, &game, session_id, 1, &blob, &no_path, START_TS + 1)
    }).unwrap_err();
    assert_eq!(err, Error::InvalidNoPathFlag);

    // A declared score delta that does not reconcile.
    let mut bad_score = good.clone();
    bad_score.score_delta = good.score_delta + 5;
    let err = submit(&env, &frame, &mut game, session_id, &bad_score, START_TS + 1).unwrap_err();
    assert_eq!(err, Error::InvalidScoreDelta);

    // Submitting into an ended game.
    let mut ended = game.clone();
    HeistContract::end_if_finished(&mut ended, START_TS + 601).unwrap();
    let err = env.as_contract(&frame, || {
        HeistContract::prepare_turn(&env, &ended, session_id, 1, &blob, &good, START_TS + 1)
    }).unwrap_err();
    assert_eq!(err, Error::GameAlreadyEnded);
}

#[test]
fn player_view_is_fog_limited() {
    let env = test_env();
    let session_id = 206u32;
    let game = active_game(&env, session_id, 50);
    let view = HeistContract::get_player_view(&game, 1).unwrap();
    assert_eq!(view.my_fog, game.fog_p1);
    for i in 0..144u32 {
        if bit_is_set(&view.visible_walls, i) {
            assert!(bit_is_set(&game.fog_p1, i) && bit_is_set(&game.walls, i));
        }
        if !bit_is_set(&game.fog_p1, i) {
            assert!(!bit_is_set(&view.visible_walls, i));
            assert!(!bit_is_set(&view.visible_loot, i));
        }
    }
    assert_eq!(
        HeistContract::get_player_view(&game, 9).unwrap_err(),
        Error::NotPlayer
    );
    let full = HeistContract::get_game(&game);
    assert_eq!(full.walls, game.walls);
    assert_eq!(full.turn_index, game.turn_index);
    assert_eq!(HeistContract::get_player_fog(&game, 2).unwrap(), game.fog_p2);
}

#[test]
fn digest_is_stable_and_field_sensitive() {
    let env = test_env();
    let session_id = 207u32;
    let game = active_game(&env, session_id, 50);
    // The same state hashes to the same digest, however often recomputed.
    let d1 = HeistContract::get_state_hash(&env, session_id, &game);
    let d2 = HeistContract::get_state_hash(&env, session_id, &game);
    assert_eq!(d1, d2);
    // Any single tracked field changing changes the digest.
    let mut bumped = game.clone();
    bumped.turn_index += 1;
    assert_ne!(HeistContract::get_state_hash(&env, session_id, &bumped), d1);
    let mut moved = game.clone();
    moved.player1_pos = Position { x: 2, y: 1 };
    assert_ne!(HeistContract::get_state_hash(&env, session_id, &moved), d1);
    let mut scored = game.clone();
    scored.player2_score = 3;
    assert_ne!(HeistContract::get_state_hash(&env, session_id, &scored), d1);
    // A different session id also separates digests.
    assert_ne!(HeistContract::get_state_hash(&env, session_id + 1, &game), d1);
}
