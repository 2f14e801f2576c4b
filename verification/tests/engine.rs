use heist::bits::{bit_is_set, bit_set, has_any_set_bit, is_full_collection};
use heist::engine::{
    abs_diff, commit_hash, derive_session_seed, exists_any_path_len, near_spawn, reveal_fog_4x4,
    roll_value, seeded_u32,
};
use heist::mapgen::generate_map;
use heist::types::Position;
use soroban_sdk::testutils::EnvTestConfig;
use soroban_sdk::{Address, Env};

fn test_env() -> Env {
    Env::new_with_config(EnvTestConfig { capture_snapshot_at_drop: false })
}

struct NoopContract;

impl soroban_sdk::testutils::ContractFunctionSet for NoopContract {
    fn call(
        &self,
        _func: &str,
        _env: soroban_sdk::Env,
        _args: &[soroban_sdk::Val],
    ) -> Option<soroban_sdk::Val> {
        None
    }
}

#[allow(deprecated)]
fn frame_addr(env: &Env) -> Address {
    env.register_contract(None, NoopContract)
}

fn fog_count(fog: &[u8; 18]) -> u32 {
    let mut n = 0;
    for i in 0..144u32 {
        if bit_is_set(fog, i) {
            n += 1;
        }
    }
    n
}

#[test]
fn bitset_set_and_test() {
    let mut bits = [0u8; 18];
    assert!(!has_any_set_bit(&bits));
    bit_set(&mut bits, 0);
    bit_set(&mut bits, 143);
    bit_set(&mut bits, 77);
    assert!(bit_is_set(&bits, 0));
    assert!(bit_is_set(&bits, 77));
    assert!(bit_is_set(&bits, 143));
    assert!(!bit_is_set(&bits, 1));
    assert!(has_any_set_bit(&bits));
}

#[test]
fn full_collection_needs_every_loot_bit() {
    let mut loot = [0u8; 18];
    bit_set(&mut loot, 10);
    bit_set(&mut loot, 20);
    let mut collected = [0u8; 18];
    bit_set(&mut collected, 10);
    assert!(!is_full_collection(&loot, &collected));
    bit_set(&mut collected, 20);
    assert!(is_full_collection(&loot, &collected));
    // Extra collected bits beyond the loot cells do not matter.
    bit_set(&mut collected, 30);
    assert!(is_full_collection(&loot, &collected));
}

#[test]
fn commit_hash_is_deterministic_and_not_identity() {
    let env = test_env();
    let secret = [1u8; 32];
    let c1 = commit_hash(&env, &secret);
    let c2 = commit_hash(&env, &secret);
    assert_eq!(c1, c2);
    assert_ne!(c1, secret);
    let other = commit_hash(&env, &[2u8; 32]);
    assert_ne!(c1, other);
}

#[test]
fn session_seed_is_deterministic() {
    let env = test_env();
    let s1 = [1u8; 32];
    let s2 = [2u8; 32];
    let a = derive_session_seed(&env, 7, &s1, &s2);
    let b = derive_session_seed(&env, 7, &s1, &s2);
    assert_eq!(a, b);
    // The ordered inputs matter: swapping the secrets changes the seed.
    let c = derive_session_seed(&env, 7, &s2, &s1);
    assert_ne!(a, c);
}

#[test]
fn roll_value_is_pure_and_in_range() {
    let env = test_env();
    let frame = frame_addr(&env);
    let seed = derive_session_seed(&env, 9, &[1u8; 32], &[2u8; 32]);
    let (r1, r2, other_turn) = env.as_contract(&frame, || {
        (
            roll_value(&env, &seed, 0, 1),
            roll_value(&env, &seed, 0, 1),
            roll_value(&env, &seed, 1, 1),
        )
    });
    assert_eq!(r1, r2);
    assert!((1..=6).contains(&r1));
    assert!((1..=6).contains(&other_turn));
}

#[test]
fn seeded_draws_are_deterministic() {
    let env = test_env();
    let seed = [5u8; 32];
    assert_eq!(seeded_u32(&env, &seed, 1, 0), seeded_u32(&env, &seed, 1, 0));
    assert_ne!(seeded_u32(&env, &seed, 1, 0), seeded_u32(&env, &seed, 1, 1));
}

#[test]
fn map_generation_is_deterministic() {
    let env = test_env();
    let seed = derive_session_seed(&env, 12, &[1u8; 32], &[2u8; 32]);
    let (w1, l1, c1, z1) = generate_map(&env, &seed);
    let (w2, l2, c2, z2) = generate_map(&env, &seed);
    assert_eq!(w1, w2);
    assert_eq!(l1, l2);
    assert_eq!(c1, c2);
    assert_eq!(z1, z2);
    // Spawn neighborhoods stay clear of walls and loot.
    for x in 0..12u32 {
        for y in 0..12u32 {
            if near_spawn(x, y) {
                assert!(!bit_is_set(&w1, y * 12 + x));
                assert!(!bit_is_set(&l1, y * 12 + x));
            }
        }
    }
    // Loot never sits on a wall.
    for bit in 0..144u32 {
        assert!(!(bit_is_set(&w1, bit) && bit_is_set(&l1, bit)));
    }
    for cam in c1.iter() {
        assert!(cam.x < 12 && cam.y < 12 && cam.radius == 2);
    }
    for laser in z1.iter() {
        assert!(laser.x1 < 12 && laser.y1 < 12 && laser.x2 < 12 && laser.y2 < 12);
        assert!(laser.x1 == laser.x2 || laser.y1 == laser.y2);
    }
}

#[test]
fn fog_reveal_is_monotonic_and_clamped() {
    let mut fog = [0u8; 18];
    reveal_fog_4x4(&mut fog, 0, 0);
    // Clamped 5x5 at the corner: 3x3 cells.
    assert_eq!(fog_count(&fog), 9);
    let before = fog;
    reveal_fog_4x4(&mut fog, 5, 5);
    // A full 5x5 neighborhood away from the edge adds 25 cells.
    assert_eq!(fog_count(&fog), 9 + 25);
    for i in 0..144u32 {
        if bit_is_set(&before, i) {
            assert!(bit_is_set(&fog, i));
        }
    }
    // Revealing the same center again changes nothing.
    let snapshot = fog;
    reveal_fog_4x4(&mut fog, 5, 5);
    assert_eq!(fog, snapshot);
}

#[test]
fn no_path_claim_only_when_fully_boxed_in() {
    let mut walls = [0u8; 18];
    // Wall off every neighbor of (5, 5).
    bit_set(&mut walls, 5 * 12 + 4);
    bit_set(&mut walls, 5 * 12 + 6);
    bit_set(&mut walls, 4 * 12 + 5);
    let start = Position { x: 5, y: 5 };
    // One neighbor still open: a single step exists.
    assert!(exists_any_path_len(&walls, &start, 1));
    bit_set(&mut walls, 6 * 12 + 5);
    assert!(!exists_any_path_len(&walls, &start, 1));
    // Zero steps are always possible.
    assert!(exists_any_path_len(&walls, &start, 0));
}

#[test]
fn abs_diff_is_symmetric() {
    assert_eq!(abs_diff(3, 10), 7);
    assert_eq!(abs_diff(10, 3), 7);
    assert_eq!(abs_diff(4, 4), 0);
}
