//! Deterministic game engine: canonical byte encodings, commit-reveal seed
//! derivation, dice rolls, fog-of-war reveal and bounded path search.

use vstd::prelude::*;
use crate::bits::{
    bit_is_set, bit_set, cell_of, lemma_cell_decomp, lemma_cell_of, spec_bit_is_set,
};
use crate::crypto::{dice_of, keccak256, keccak_of, prng_roll};
use crate::types::{Game, Position};

verus! {

/// Match length in seconds, from `begin_match` to the global deadline.
pub const GAME_SECONDS: u64 = 300;

/// Score penalty per camera whose zone a path crosses.
pub const CAMERA_PENALTY: i128 = 1;

/// Score penalty per laser whose beam a path crosses.
pub const LASER_PENALTY: i128 = 2;

/// Big-endian encoding of a `u32`, 4 bytes.
pub open spec fn be_u32(v: u32) -> Seq<u8> {
    seq![(v >> 24) as u8, (v >> 16) as u8, (v >> 8) as u8, v as u8]
}

/// Big-endian encoding of a `u64`, 8 bytes.
pub open spec fn be_u64(v: u64) -> Seq<u8> {
    seq![
        (v >> 56) as u8,
        (v >> 48) as u8,
        (v >> 40) as u8,
        (v >> 32) as u8,
        (v >> 24) as u8,
        (v >> 16) as u8,
        (v >> 8) as u8,
        v as u8,
    ]
}

/// Big-endian two's-complement encoding of an `i128`, 16 bytes.
pub open spec fn be_i128(v: i128) -> Seq<u8> {
    seq![
        (v >> 120) as u8,
        (v >> 112) as u8,
        (v >> 104) as u8,
        (v >> 96) as u8,
        (v >> 88) as u8,
        (v >> 80) as u8,
        (v >> 72) as u8,
        (v >> 64) as u8,
        (v >> 56) as u8,
        (v >> 48) as u8,
        (v >> 40) as u8,
        (v >> 32) as u8,
        (v >> 24) as u8,
        (v >> 16) as u8,
        (v >> 8) as u8,
        v as u8,
    ]
}

/// The `u32` read big-endian from the first four bytes of `s`.
pub open spec fn u32_from_be4(s: Seq<u8>) -> u32
    recommends
        s.len() >= 4,
{
    ((s[0] as u32) << 24) | ((s[1] as u32) << 16) | ((s[2] as u32) << 8) | (s[3] as u32)
}

/// Appends the big-endian bytes of `v` to `out`.
pub fn push_u32_be(out: &mut Vec<u8>, v: u32)
    ensures
        final(out)@ == old(out)@ + be_u32(v),
{
    out.push(#[verifier::truncate] ((v >> 24) as u8));
    out.push(#[verifier::truncate] ((v >> 16) as u8));
    out.push(#[verifier::truncate] ((v >> 8) as u8));
    out.push(#[verifier::truncate] (v as u8));
    proof {
        assert(out@ =~= old(out)@ + be_u32(v));
    }
}

/// Appends the big-endian bytes of `v` to `out`.
pub fn push_u64_be(out: &mut Vec<u8>, v: u64)
    ensures
        final(out)@ == old(out)@ + be_u64(v),
{
    out.push(#[verifier::truncate] ((v >> 56) as u8));
    out.push(#[verifier::truncate] ((v >> 48) as u8));
    out.push(#[verifier::truncate] ((v >> 40) as u8));
    out.push(#[verifier::truncate] ((v >> 32) as u8));
    out.push(#[verifier::truncate] ((v >> 24) as u8));
    out.push(#[verifier::truncate] ((v >> 16) as u8));
    out.push(#[verifier::truncate] ((v >> 8) as u8));
    out.push(#[verifier::truncate] (v as u8));
    proof {
        assert(out@ =~= old(out)@ + be_u64(v));
    }
}

/// Appends the big-endian two's-complement bytes of `v` to `out`.
pub fn push_i128_be(out: &mut Vec<u8>, v: i128)
    ensures
        final(out)@ == old(out)@ + be_i128(v),
{
    out.push(#[verifier::truncate] ((v >> 120) as u8));
    out.push(#[verifier::truncate] ((v >> 112) as u8));
    out.push(#[verifier::truncate] ((v >> 104) as u8));
    out.push(#[verifier::truncate] ((v >> 96) as u8));
    out.push(#[verifier::truncate] ((v >> 88) as u8));
    out.push(#[verifier::truncate] ((v >> 80) as u8));
    out.push(#[verifier::truncate] ((v >> 72) as u8));
    out.push(#[verifier::truncate] ((v >> 64) as u8));
    out.push(#[verifier::truncate] ((v >> 56) as u8));
    out.push(#[verifier::truncate] ((v >> 48) as u8));
    out.push(#[verifier::truncate] ((v >> 40) as u8));
    out.push(#[verifier::truncate] ((v >> 32) as u8));
    out.push(#[verifier::truncate] ((v >> 24) as u8));
    out.push(#[verifier::truncate] ((v >> 16) as u8));
    out.push(#[verifier::truncate] ((v >> 8) as u8));
    out.push(#[verifier::truncate] (v as u8));
    proof {
        assert(out@ =~= old(out)@ + be_i128(v));
    }
}

/// Appends a fixed-size byte array to `out`.
pub fn push_arr<const N: usize>(out: &mut Vec<u8>, b: &[u8; N])
    ensures
        final(out)@ == old(out)@ + b@,
{
    let mut i: usize = 0;
    while i < N
        invariant
            i <= N,
            out@ == old(out)@ + b@.subrange(0, i as int),
        decreases N - i,
    {
        out.push(b[i]);
        proof {
            assert(out@ =~= old(out)@ + b@.subrange(0, i + 1));
        }
        i = i + 1;
    }
    proof {
        assert(b@.subrange(0, N as int) =~= b@);
    }
}

/// The commitment a player publishes for a secret: its Keccak-256 digest.
pub fn commit_hash(env: &soroban_sdk::Env, seed_secret: &[u8; 32]) -> (r: [u8; 32])
    ensures
        r@ == keccak_of(seed_secret@),
{
    let mut b: Vec<u8> = Vec::new();
    push_arr(&mut b, seed_secret);
    proof {
        assert(b@ =~= seed_secret@);
    }
    keccak256(env, &b)
}

/// The byte string hashed to derive a session seed.
pub open spec fn seed_derivation_bytes(session_id: u32, s1: Seq<u8>, s2: Seq<u8>) -> Seq<u8> {
    be_u32(session_id) + s1 + s2
}

/// Derives the joint session seed from both revealed secrets.
pub fn derive_session_seed(
    env: &soroban_sdk::Env,
    session_id: u32,
    s1: &[u8; 32],
    s2: &[u8; 32],
) -> (r: [u8; 32])
    ensures
        r@ == keccak_of(seed_derivation_bytes(session_id, s1@, s2@)),
{
    let mut b: Vec<u8> = Vec::new();
    push_u32_be(&mut b, session_id);
    push_arr(&mut b, s1);
    push_arr(&mut b, s2);
    keccak256(env, &b)
}

/// The byte string hashed to derive one turn's dice seed.
pub open spec fn roll_bytes(seed: Seq<u8>, turn_index: u32, player_tag: u32) -> Seq<u8> {
    seed + be_u32(turn_index) + be_u32(player_tag)
}

/// The dice value owed for one (seed, turn, player) triple.
pub open spec fn spec_roll(seed: Seq<u8>, turn_index: u32, player_tag: u32) -> u32 {
    dice_of(keccak_of(roll_bytes(seed, turn_index, player_tag)))
}

/// Derives the dice value (1..=6) for one turn of one player.
pub fn roll_value(
    env: &soroban_sdk::Env,
    session_seed: &[u8; 32],
    turn_index: u32,
    player_tag: u32,
) -> (r: u32)
    ensures
        r == spec_roll(session_seed@, turn_index, player_tag),
        1 <= r <= 6,
{
    let mut b: Vec<u8> = Vec::new();
    push_arr(&mut b, session_seed);
    push_u32_be(&mut b, turn_index);
    push_u32_be(&mut b, player_tag);
    let seed: [u8; 32] = keccak256(env, &b);
    prng_roll(env, &seed)
}

/// The pseudorandom draw used by the map generator: the first four bytes of
/// hash(seed, tag, index), read big-endian.
pub open spec fn spec_seeded_u32(seed: Seq<u8>, tag: u32, i: u32) -> u32 {
    u32_from_be4(keccak_of(seed + be_u32(tag) + be_u32(i)))
}

/// One seeded pseudorandom draw for map generation.
pub fn seeded_u32(env: &soroban_sdk::Env, seed: &[u8; 32], tag: u32, i: u32) -> (r: u32)
    ensures
        r == spec_seeded_u32(seed@, tag, i),
{
    let mut b: Vec<u8> = Vec::new();
    push_arr(&mut b, seed);
    push_u32_be(&mut b, tag);
    push_u32_be(&mut b, i);
    let h: [u8; 32] = keccak256(env, &b);
    ((h[0] as u32) << 24) | ((h[1] as u32) << 16) | ((h[2] as u32) << 8) | (h[3] as u32)
}

/// Whether cell (x, y) is on the board and free of walls.
pub open spec fn spec_is_walkable(walls: Seq<u8>, x: int, y: int) -> bool {
    0 <= x < 12 && 0 <= y < 12 && !spec_bit_is_set(walls, cell_of(x, y))
}

fn is_walkable(walls: &[u8; 18], x: i32, y: i32) -> (r: bool)
    ensures
        r == spec_is_walkable(walls@, x as int, y as int),
{
    if x < 0 || y < 0 || x >= 12 || y >= 12 {
        return false;
    }
    proof {
        lemma_cell_of(x as int, y as int);
    }
    !bit_is_set(walls, (y as u32) * 12 + (x as u32))
}

/// Whether some walkable cell sequence of exactly `steps` steps leaves
/// (x, y). Revisits are allowed; every crossed cell, the last included,
/// must be walkable.
pub open spec fn spec_has_any_path(walls: Seq<u8>, x: int, y: int, steps: nat) -> bool
    decreases steps,
{
    if !spec_is_walkable(walls, x, y) {
        false
    } else if steps == 0 {
        true
    } else {
        ||| spec_has_any_path(walls, x + 1, y, (steps - 1) as nat)
        ||| spec_has_any_path(walls, x - 1, y, (steps - 1) as nat)
        ||| spec_has_any_path(walls, x, y + 1, (steps - 1) as nat)
        ||| spec_has_any_path(walls, x, y - 1, (steps - 1) as nat)
    }
}

/// Whether any pending cell of the search stack still admits a path of
/// its remaining depth.
spec fn stack_or(walls: Seq<u8>, st: Seq<(i32, i32, u32)>) -> bool {
    exists|k: int|
        0 <= k < st.len() && spec_has_any_path(
            walls,
            (#[trigger] st[k]).0 as int,
            st[k].1 as int,
            st[k].2 as nat,
        )
}

/// Powers of five, the per-cell weight of the search's termination
/// measure: expanding one cell of depth `s` into four of depth `s - 1`
/// trades one weight of `5^s` for at most `4 * 5^(s-1)`.
spec fn pow5(n: nat) -> int
    decreases n,
{
    if n == 0 {
        1
    } else {
        5 * pow5((n - 1) as nat)
    }
}

proof fn lemma_pow5_pos(n: nat)
    ensures
        pow5(n) >= 1,
    decreases n,
{
    if n > 0 {
        lemma_pow5_pos((n - 1) as nat);
    }
}

/// The termination measure of the search: total weight of the stack.
spec fn stack_measure(st: Seq<(i32, i32, u32)>) -> int
    decreases st.len(),
{
    if st.len() == 0 {
        0
    } else {
        stack_measure(st.drop_last()) + pow5(st.last().2 as nat)
    }
}

proof fn lemma_stack_measure_pos(st: Seq<(i32, i32, u32)>)
    ensures
        stack_measure(st) >= 0,
        st.len() > 0 ==> stack_measure(st) >= 1,
    decreases st.len(),
{
    if st.len() > 0 {
        lemma_stack_measure_pos(st.drop_last());
        lemma_pow5_pos(st.last().2 as nat);
    }
}

proof fn lemma_stack_measure_push(st: Seq<(i32, i32, u32)>, e: (i32, i32, u32))
    ensures
        stack_measure(st.push(e)) == stack_measure(st) + pow5(e.2 as nat),
{
    assert(st.push(e).drop_last() =~= st);
    assert(st.push(e).last() == e);
}

proof fn lemma_stack_or_push(walls: Seq<u8>, st: Seq<(i32, i32, u32)>, e: (i32, i32, u32))
    ensures
        stack_or(walls, st.push(e)) == (stack_or(walls, st) || spec_has_any_path(
            walls,
            e.0 as int,
            e.1 as int,
            e.2 as nat,
        )),
{
    let st2 = st.push(e);
    if stack_or(walls, st2) {
        let k = choose|k: int|
            0 <= k < st2.len() && spec_has_any_path(
                walls,
                (#[trigger] st2[k]).0 as int,
                st2[k].1 as int,
                st2[k].2 as nat,
            );
        if k < st.len() {
            assert(st2[k] == st[k]);
            assert(stack_or(walls, st));
        } else {
            assert(st2[k] == e);
        }
    }
    if stack_or(walls, st) {
        let k = choose|k: int|
            0 <= k < st.len() && spec_has_any_path(
                walls,
                (#[trigger] st[k]).0 as int,
                st[k].1 as int,
                st[k].2 as nat,
            );
        assert(st2[k] == st[k]);
        assert(stack_or(walls, st2));
    }
    if spec_has_any_path(walls, e.0 as int, e.1 as int, e.2 as nat) {
        assert(st2[st.len() as int] == e);
        assert(stack_or(walls, st2));
    }
}

/// The path-existence search, as an explicit-stack depth-bounded
/// traversal: cells still to explore wait on the stack with their
/// remaining step budget.
fn has_any_path(walls: &[u8; 18], x: i32, y: i32, steps: u32) -> (r: bool)
    ensures
        r == spec_has_any_path(walls@, x as int, y as int, steps as nat),
{
    let mut stack: Vec<(i32, i32, u32)> = Vec::new();
    stack.push((x, y, steps));
    proof {
        lemma_stack_or_push(walls@, Seq::empty(), (x, y, steps));
        assert(stack@ =~= Seq::<(i32, i32, u32)>::empty().push((x, y, steps)));
    }
    loop
        invariant
            stack_or(walls@, stack@) == spec_has_any_path(walls@, x as int, y as int, steps as nat),
        decreases stack_measure(stack@),
    {
        proof {
            lemma_stack_measure_pos(stack@);
        }
        let ghost pre = stack@;
        let top = match stack.pop() {
            Some(t) => t,
            None => {
                return false;
            },
        };
        let (cx, cy, s) = top;
        proof {
            assert(pre =~= stack@.push(top));
            lemma_stack_or_push(walls@, stack@, top);
            lemma_stack_measure_push(stack@, top);
            lemma_stack_measure_pos(stack@);
            lemma_pow5_pos(s as nat);
        }
        if is_walkable(walls, cx, cy) {
            if s == 0 {
                return true;
            }
            let ghost base = stack@;
            let e1 = (cx + 1, cy, s - 1);
            let e2 = (cx - 1, cy, s - 1);
            let e3 = (cx, cy + 1, s - 1);
            let e4 = (cx, cy - 1, s - 1);
            stack.push(e1);
            stack.push(e2);
            stack.push(e3);
            stack.push(e4);
            proof {
                lemma_stack_or_push(walls@, base, e1);
                lemma_stack_or_push(walls@, base.push(e1), e2);
                lemma_stack_or_push(walls@, base.push(e1).push(e2), e3);
                lemma_stack_or_push(walls@, base.push(e1).push(e2).push(e3), e4);
                lemma_stack_measure_push(base, e1);
                lemma_stack_measure_push(base.push(e1), e2);
                lemma_stack_measure_push(base.push(e1).push(e2), e3);
                lemma_stack_measure_push(base.push(e1).push(e2).push(e3), e4);
                assert(stack@ =~= base.push(e1).push(e2).push(e3).push(e4));
            }
        }
    }
}

/// Whether any walkable cell sequence of exactly `steps` steps exists from
/// `start`; used both for no-path claims and all-or-nothing movement rules.
pub fn exists_any_path_len(walls: &[u8; 18], start: &Position, steps: u32) -> (r: bool)
    requires
        start.wf(),
    ensures
        r == spec_has_any_path(walls@, start.x as int, start.y as int, steps as nat),
{
    has_any_path(walls, start.x as i32, start.y as i32, steps)
}

spec fn lo2(c: int) -> int {
    if c >= 2 {
        c - 2
    } else {
        0
    }
}

spec fn hi2(c: int) -> int {
    if c + 2 < 12 {
        c + 2
    } else {
        11
    }
}

/// The clamped square neighborhood revealed around center (cx, cy): all
/// board cells within two columns and two rows of the center.
pub open spec fn in_reveal_zone(cx: int, cy: int, j: int) -> bool {
    let x = j % 12;
    let y = j / 12;
    -2 <= x - cx <= 2 && -2 <= y - cy <= 2
}

/// The fog-reveal relation: `after` holds exactly the cells of `before`
/// plus the clamped 5 x 5 neighborhood of the center.
pub open spec fn fog_revealed(before: Seq<u8>, after: Seq<u8>, cx: int, cy: int) -> bool {
    forall|j: int|
        0 <= j < 144 ==> (spec_bit_is_set(after, j) <==> spec_bit_is_set(before, j)
            || in_reveal_zone(cx, cy, j))
}

/// Reveals the clamped 5 x 5 neighborhood of (cx, cy) in a fog mask.
/// Every previously revealed cell stays revealed.
pub fn reveal_fog_4x4(fog: &mut [u8; 18], cx: u32, cy: u32)
    requires
        cx < 12,
        cy < 12,
    ensures
        fog_revealed(old(fog)@, final(fog)@, cx as int, cy as int),
{
    let start_x: u32 = if cx >= 2 {
        cx - 2
    } else {
        0
    };
    let start_y: u32 = if cy >= 2 {
        cy - 2
    } else {
        0
    };
    let end_x: u32 = if cx + 2 < 12 {
        cx + 2
    } else {
        11
    };
    let end_y: u32 = if cy + 2 < 12 {
        cy + 2
    } else {
        11
    };

    let mut x: u32 = start_x;
    while x <= end_x
        invariant
            cx < 12,
            cy < 12,
            start_x <= x <= end_x + 1,
            start_x == lo2(cx as int),
            start_y == lo2(cy as int),
            end_x == hi2(cx as int),
            end_y == hi2(cy as int),
            forall|j: int|
                0 <= j < 144 ==> (spec_bit_is_set(fog@, j) <==> spec_bit_is_set(old(fog)@, j) || (
                start_x <= j % 12 < x && start_y <= j / 12 <= end_y)),
        decreases end_x + 1 - x,
    {
        let mut y: u32 = start_y;
        while y <= end_y
            invariant
                cx < 12,
                cy < 12,
                start_x <= x <= end_x,
                start_y <= y <= end_y + 1,
                start_x == lo2(cx as int),
                start_y == lo2(cy as int),
                end_x == hi2(cx as int),
                end_y == hi2(cy as int),
                forall|j: int|
                    0 <= j < 144 ==> (spec_bit_is_set(fog@, j) <==> spec_bit_is_set(old(fog)@, j)
                        || (start_x <= j % 12 < x && start_y <= j / 12 <= end_y) || (j % 12 == x
                        && start_y <= j / 12 < y)),
            decreases end_y + 1 - y,
        {
            proof {
                lemma_cell_of(x as int, y as int);
            }
            bit_set(fog, y * 12 + x);
            proof {
                assert forall|j: int| 0 <= j < 144 implies (spec_bit_is_set(fog@, j)
                    <==> spec_bit_is_set(old(fog)@, j) || (start_x <= j % 12 < x && start_y <= j
                    / 12 <= end_y) || (j % 12 == x && start_y <= j / 12 < y + 1)) by {
                    lemma_cell_decomp(j);
                }
            }
            y = y + 1;
        }
        x = x + 1;
    }
    proof {
        assert forall|j: int| 0 <= j < 144 implies (spec_bit_is_set(fog@, j) <==> spec_bit_is_set(
            old(fog)@,
            j,
        ) || in_reveal_zone(cx as int, cy as int, j)) by {
            lemma_cell_decomp(j);
        }
    }
}

/// The two spawn corners and their immediate neighborhoods, kept free of
/// obstacles and loot so that both players always have an escape path.
pub open spec fn spec_near_spawn(x: int, y: int) -> bool {
    let d1 = abs_int(x - 1) <= 1 && abs_int(y - 1) <= 1;
    let d2 = abs_int(x - 10) <= 1 && abs_int(y - 10) <= 1;
    d1 || d2
}

/// The absolute value of an integer.
pub open spec fn abs_int(v: int) -> int {
    if v >= 0 {
        v
    } else {
        -v
    }
}

/// The absolute difference of two unsigned values.
pub fn abs_diff(a: u32, b: u32) -> (r: u32)
    ensures
        r == abs_int(a - b),
{
    if a > b {
        a - b
    } else {
        b - a
    }
}

/// Whether (x, y) lies in one of the two protected spawn neighborhoods.
pub fn near_spawn(x: u32, y: u32) -> (r: bool)
    ensures
        r == spec_near_spawn(x as int, y as int),
{
    let p1 = abs_diff(x, 1) <= 1 && abs_diff(y, 1) <= 1;
    let p2 = abs_diff(x, 10) <= 1 && abs_diff(y, 10) <= 1;
    p1 || p2
}

/// The canonical byte string hashed into a session's state digest: a fixed
/// field order with fixed-width big-endian integers, followed by the five
/// board bitsets, then the session seed and deadline when present.
pub open spec fn state_bytes(session_id: u32, g: Game) -> Seq<u8> {
    be_u32(session_id) + be_u32(g.turn_index) + be_u32(g.player1_pos.x) + be_u32(g.player1_pos.y)
        + be_u32(g.player2_pos.x) + be_u32(g.player2_pos.y) + be_i128(g.player1_score) + be_i128(
        g.player2_score,
    ) + g.walls@ + g.loot@ + g.loot_collected@ + g.fog_p1@ + g.fog_p2@ + (if g.session_seed
        is Some {
        (g.session_seed->0)@
    } else {
        Seq::<u8>::empty()
    }) + (if g.deadline_ts is Some {
        be_u64(g.deadline_ts->0)
    } else {
        Seq::<u8>::empty()
    })
}

/// Computes the chained state digest of a session.
pub fn compute_state_hash(env: &soroban_sdk::Env, session_id: u32, game: &Game) -> (r: [u8; 32])
    ensures
        r@ == keccak_of(state_bytes(session_id, *game)),
{
    let mut b: Vec<u8> = Vec::new();
    push_u32_be(&mut b, session_id);
    push_u32_be(&mut b, game.turn_index);
    push_u32_be(&mut b, game.player1_pos.x);
    push_u32_be(&mut b, game.player1_pos.y);
    push_u32_be(&mut b, game.player2_pos.x);
    push_u32_be(&mut b, game.player2_pos.y);
    push_i128_be(&mut b, game.player1_score);
    push_i128_be(&mut b, game.player2_score);
    push_arr(&mut b, &game.walls);
    push_arr(&mut b, &game.loot);
    push_arr(&mut b, &game.loot_collected);
    push_arr(&mut b, &game.fog_p1);
    push_arr(&mut b, &game.fog_p2);
    if let Some(seed) = &game.session_seed {
        push_arr(&mut b, seed);
    }
    if let Some(d) = game.deadline_ts {
        push_u64_be(&mut b, d);
    }
    proof {
        assert(b@ =~= state_bytes(session_id, *game));
    }
    keccak256(env, &b)
}

} // verus!
