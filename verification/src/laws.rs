//! The library's standing guarantees, written out as proof functions: the
//! determinism of seed and dice derivation, the monotonicity of fog and of
//! the collected-loot mask, the strict advance of the turn counter with
//! alternation of the active player, and the injectivity of the canonical
//! state encoding that backs the chained digest.

use vstd::prelude::*;
use vstd::seq::group_seq_axioms;
use crate::bits::spec_bit_is_set;
use crate::crypto::keccak_of;
use crate::engine::{
    be_i128, be_u32, be_u64, fog_revealed, in_reveal_zone, seed_derivation_bytes, spec_roll,
    state_bytes,
};
use crate::engine::spec_near_spawn;
use crate::mapgen::{lemma_loot_spawn_free_and_off_walls, lemma_walls_spawn_free};
use crate::protocol::begin_match_post;
use crate::turns::{applied_post, delta_bit};
use crate::types::{Game, TurnPublic};

verus! {

/// The session seed is a pure function of the session id and the two
/// revealed secrets: any two values derived from the same inputs are
/// equal, across repeated calls and independent computations.
pub proof fn lemma_seed_derivation_deterministic(
    session_id: u32,
    s1: Seq<u8>,
    s2: Seq<u8>,
    r1: Seq<u8>,
    r2: Seq<u8>,
)
    requires
        r1 == keccak_of(seed_derivation_bytes(session_id, s1, s2)),
        r2 == keccak_of(seed_derivation_bytes(session_id, s1, s2)),
    ensures
        r1 == r2,
{
}

/// The dice value is a pure function of the session seed, the turn index
/// and the player tag: any two values rolled from the same triple are
/// equal.
pub proof fn lemma_roll_deterministic(
    seed: Seq<u8>,
    turn_index: u32,
    player_tag: u32,
    r1: u32,
    r2: u32,
)
    requires
        r1 == spec_roll(seed, turn_index, player_tag),
        r2 == spec_roll(seed, turn_index, player_tag),
    ensures
        r1 == r2,
{
}

/// Revealing fog never hides a cell: every cell revealed before a reveal
/// step is still revealed after it, so the revealed set only grows call
/// over call.
pub proof fn lemma_reveal_fog_monotonic(before: Seq<u8>, after: Seq<u8>, cx: int, cy: int)
    requires
        fog_revealed(before, after, cx, cy),
    ensures
        forall|j: int|
            0 <= j < 144 && spec_bit_is_set(before, j) ==> spec_bit_is_set(after, j),
{
    assert forall|j: int|
        0 <= j < 144 && spec_bit_is_set(before, j) implies spec_bit_is_set(after, j) by {
        assert(spec_bit_is_set(after, j) <==> spec_bit_is_set(before, j) || in_reveal_zone(
            cx,
            cy,
            j,
        ));
    }
}

/// An accepted turn only ever adds bits to the collected-loot mask: no
/// previously collected cell is cleared, and every newly set bit is a
/// declared loot cell that was still uncollected.
pub proof fn lemma_collected_mask_monotonic(g: Game, g2: Game, t: TurnPublic, proof_id: [u8; 32])
    requires
        applied_post(g, g2, t, proof_id),
    ensures
        forall|j: int|
            0 <= j < 144 && spec_bit_is_set(g.loot_collected@, j) ==> spec_bit_is_set(
                g2.loot_collected@,
                j,
            ),
        forall|j: int|
            0 <= j < 144 && !spec_bit_is_set(g.loot_collected@, j) && spec_bit_is_set(
                g2.loot_collected@,
                j,
            ) ==> spec_bit_is_set(g.loot@, j) && delta_bit(g, t, j),
{
    assert forall|j: int| 0 <= j < 144 implies (spec_bit_is_set(g2.loot_collected@, j)
        <==> spec_bit_is_set(g.loot_collected@, j) || delta_bit(g, t, j)) by {}
}

/// An accepted turn advances the turn counter by exactly one and passes
/// play to the other player.
pub proof fn lemma_turn_advances(g: Game, g2: Game, t: TurnPublic, proof_id: [u8; 32])
    requires
        g.wf(),
        t.player == g.active_player,
        applied_post(g, g2, t, proof_id),
    ensures
        g2.turn_index == g.turn_index + 1,
        g2.active_player != g.active_player,
        g2.active_player == g.player1 || g2.active_player == g.player2,
{
}

/// The board a match begins on keeps both spawn neighborhoods clear:
/// no wall and no loot cell stands near either spawn, and loot never
/// sits on a wall, so both players always have an initial escape path.
pub proof fn lemma_board_spawn_safe(g: Game, g2: Game, session_id: u32, now_ts: u64, j: int)
    requires
        begin_match_post(g, g2, session_id, now_ts),
        0 <= j < 144,
    ensures
        spec_bit_is_set(g2.walls@, j) ==> !spec_near_spawn(j % 12, j / 12),
        spec_bit_is_set(g2.loot@, j) ==> !spec_near_spawn(j % 12, j / 12) && !spec_bit_is_set(
            g2.walls@,
            j,
        ),
{
    let seed = keccak_of(
        seed_derivation_bytes(session_id, (g.p1_seed_reveal->0)@, (g.p2_seed_reveal->0)@),
    );
    if spec_bit_is_set(g2.walls@, j) {
        lemma_walls_spawn_free(seed, 500, j);
    }
    if spec_bit_is_set(g2.loot@, j) {
        lemma_loot_spawn_free_and_off_walls(seed, g2.walls@, 1000, j);
    }
}

/// The state digest is a pure function of the encoded state: any two
/// digests of byte-identical states are equal.
pub proof fn lemma_state_hash_deterministic(session_id: u32, g1: Game, g2: Game, r1: Seq<u8>, r2: Seq<u8>)
    requires
        state_bytes(session_id, g1) == state_bytes(session_id, g2),
        r1 == keccak_of(state_bytes(session_id, g1)),
        r2 == keccak_of(state_bytes(session_id, g2)),
    ensures
        r1 == r2,
{
}

/// Splitting equal concatenations at equal prefix lengths gives equal
/// parts.
proof fn lemma_concat_eq_parts(a1: Seq<u8>, b1: Seq<u8>, a2: Seq<u8>, b2: Seq<u8>)
    requires
        a1 + b1 == a2 + b2,
        a1.len() == a2.len(),
    ensures
        a1 == a2,
        b1 == b2,
{
    broadcast use group_seq_axioms;

    assert(a1 =~= a2) by {
        assert forall|i: int| 0 <= i < a1.len() implies a1[i] == a2[i] by {
            assert((a1 + b1)[i] == a1[i]);
            assert((a2 + b2)[i] == a2[i]);
        }
    }
    assert((a1 + b1).len() == a1.len() + b1.len());
    assert((a2 + b2).len() == a2.len() + b2.len());
    assert(b1.len() == b2.len());
    assert(b1 =~= b2) by {
        assert forall|i: int| 0 <= i < b1.len() implies b1[i] == b2[i] by {
            assert(b1.len() == b2.len());
            assert((a1 + b1)[a1.len() + i] == b1[i]);
            assert((a2 + b2)[a2.len() + i] == b2[i]);
        }
    }
}

proof fn lemma_be_u32_injective(a: u32, b: u32)
    requires
        be_u32(a) == be_u32(b),
    ensures
        a == b,
{
    assert(be_u32(a)[0] == be_u32(b)[0]);
    assert(be_u32(a)[1] == be_u32(b)[1]);
    assert(be_u32(a)[2] == be_u32(b)[2]);
    assert(be_u32(a)[3] == be_u32(b)[3]);
    assert(a == b) by (bit_vector)
        requires
            (a >> 24) as u8 == (b >> 24) as u8,
            (a >> 16) as u8 == (b >> 16) as u8,
            (a >> 8) as u8 == (b >> 8) as u8,
            a as u8 == b as u8,
    ;
}

proof fn lemma_be_u64_injective(a: u64, b: u64)
    requires
        be_u64(a) == be_u64(b),
    ensures
        a == b,
{
    assert forall|k: int| 0 <= k < 8 implies be_u64(a)[k] == be_u64(b)[k] by {}
    assert(a == b) by (bit_vector)
        requires
            (a >> 56) as u8 == (b >> 56) as u8,
            (a >> 48) as u8 == (b >> 48) as u8,
            (a >> 40) as u8 == (b >> 40) as u8,
            (a >> 32) as u8 == (b >> 32) as u8,
            (a >> 24) as u8 == (b >> 24) as u8,
            (a >> 16) as u8 == (b >> 16) as u8,
            (a >> 8) as u8 == (b >> 8) as u8,
            a as u8 == b as u8,
    ;
}

proof fn lemma_be_i128_injective(a: i128, b: i128)
    requires
        be_i128(a) == be_i128(b),
    ensures
        a == b,
{
    assert forall|k: int| 0 <= k < 16 implies be_i128(a)[k] == be_i128(b)[k] by {}
    assert(a == b) by (bit_vector)
        requires
            (a >> 120) as u8 == (b >> 120) as u8,
            (a >> 112) as u8 == (b >> 112) as u8,
            (a >> 104) as u8 == (b >> 104) as u8,
            (a >> 96) as u8 == (b >> 96) as u8,
            (a >> 88) as u8 == (b >> 88) as u8,
            (a >> 80) as u8 == (b >> 80) as u8,
            (a >> 72) as u8 == (b >> 72) as u8,
            (a >> 64) as u8 == (b >> 64) as u8,
            (a >> 56) as u8 == (b >> 56) as u8,
            (a >> 48) as u8 == (b >> 48) as u8,
            (a >> 40) as u8 == (b >> 40) as u8,
            (a >> 32) as u8 == (b >> 32) as u8,
            (a >> 24) as u8 == (b >> 24) as u8,
            (a >> 16) as u8 == (b >> 16) as u8,
            (a >> 8) as u8 == (b >> 8) as u8,
            a as u8 == b as u8,
    ;
}

/// The optional tail of the state encoding: session seed bytes when
/// present, then the deadline when armed.
spec fn state_tail(g: Game) -> Seq<u8> {
    (if g.session_seed is Some {
        (g.session_seed->0)@
    } else {
        Seq::<u8>::empty()
    }) + (if g.deadline_ts is Some {
        be_u64(g.deadline_ts->0)
    } else {
        Seq::<u8>::empty()
    })
}

/// The canonical state encoding is injective over everything it hashes:
/// two states with the same digest input agree on the session id, turn
/// index, both positions, both scores, all five board bitsets, the
/// presence and value of the session seed, and the presence and value of
/// the deadline. Any single mutation of one of these fields therefore
/// changes the bytes the digest is computed over.
#[verifier::rlimit(100)]
pub proof fn lemma_state_bytes_injective(sid1: u32, g1: Game, sid2: u32, g2: Game)
    requires
        state_bytes(sid1, g1) == state_bytes(sid2, g2),
    ensures
        sid1 == sid2,
        g1.turn_index == g2.turn_index,
        g1.player1_pos == g2.player1_pos,
        g1.player2_pos == g2.player2_pos,
        g1.player1_score == g2.player1_score,
        g1.player2_score == g2.player2_score,
        g1.walls@ == g2.walls@,
        g1.loot@ == g2.loot@,
        g1.loot_collected@ == g2.loot_collected@,
        g1.fog_p1@ == g2.fog_p1@,
        g1.fog_p2@ == g2.fog_p2@,
        g1.session_seed is Some <==> g2.session_seed is Some,
        g1.session_seed is Some ==> (g1.session_seed->0)@ == (g2.session_seed->0)@,
        g1.deadline_ts is Some <==> g2.deadline_ts is Some,
        g1.deadline_ts is Some ==> g1.deadline_ts->0 == g2.deadline_ts->0,
{
    broadcast use group_seq_axioms;

    let s1 = state_bytes(sid1, g1);
    let s2 = state_bytes(sid2, g2);
    let head1 = be_u32(sid1) + (be_u32(g1.turn_index) + (be_u32(g1.player1_pos.x) + (be_u32(
        g1.player1_pos.y,
    ) + (be_u32(g1.player2_pos.x) + (be_u32(g1.player2_pos.y) + (be_i128(g1.player1_score) + (
    be_i128(g1.player2_score) + (g1.walls@ + (g1.loot@ + (g1.loot_collected@ + (g1.fog_p1@ + (
    g1.fog_p2@ + state_tail(g1)))))))))))));
    let head2 = be_u32(sid2) + (be_u32(g2.turn_index) + (be_u32(g2.player1_pos.x) + (be_u32(
        g2.player1_pos.y,
    ) + (be_u32(g2.player2_pos.x) + (be_u32(g2.player2_pos.y) + (be_i128(g2.player1_score) + (
    be_i128(g2.player2_score) + (g2.walls@ + (g2.loot@ + (g2.loot_collected@ + (g2.fog_p1@ + (
    g2.fog_p2@ + state_tail(g2)))))))))))));
    assert(s1 =~= head1);
    assert(s2 =~= head2);

    lemma_concat_eq_parts(
        be_u32(sid1),
        be_u32(g1.turn_index) + (be_u32(g1.player1_pos.x) + (be_u32(g1.player1_pos.y) + (be_u32(
            g1.player2_pos.x,
        ) + (be_u32(g1.player2_pos.y) + (be_i128(g1.player1_score) + (be_i128(g1.player2_score)
            + (g1.walls@ + (g1.loot@ + (g1.loot_collected@ + (g1.fog_p1@ + (g1.fog_p2@
            + state_tail(g1)))))))))))),
        be_u32(sid2),
        be_u32(g2.turn_index) + (be_u32(g2.player1_pos.x) + (be_u32(g2.player1_pos.y) + (be_u32(
            g2.player2_pos.x,
        ) + (be_u32(g2.player2_pos.y) + (be_i128(g2.player1_score) + (be_i128(g2.player2_score)
            + (g2.walls@ + (g2.loot@ + (g2.loot_collected@ + (g2.fog_p1@ + (g2.fog_p2@
            + state_tail(g2)))))))))))),
    );
    lemma_be_u32_injective(sid1, sid2);
    lemma_concat_eq_parts(
        be_u32(g1.turn_index),
        be_u32(g1.player1_pos.x) + (be_u32(g1.player1_pos.y) + (be_u32(g1.player2_pos.x) + (
        be_u32(g1.player2_pos.y) + (be_i128(g1.player1_score) + (be_i128(g1.player2_score) + (
        g1.walls@ + (g1.loot@ + (g1.loot_collected@ + (g1.fog_p1@ + (g1.fog_p2@ + state_tail(
            g1,
        ))))))))))),
        be_u32(g2.turn_index),
        be_u32(g2.player1_pos.x) + (be_u32(g2.player1_pos.y) + (be_u32(g2.player2_pos.x) + (
        be_u32(g2.player2_pos.y) + (be_i128(g2.player1_score) + (be_i128(g2.player2_score) + (
        g2.walls@ + (g2.loot@ + (g2.loot_collected@ + (g2.fog_p1@ + (g2.fog_p2@ + state_tail(
            g2,
        ))))))))))),
    );
    lemma_be_u32_injective(g1.turn_index, g2.turn_index);
    lemma_concat_eq_parts(
        be_u32(g1.player1_pos.x),
        be_u32(g1.player1_pos.y) + (be_u32(g1.player2_pos.x) + (be_u32(g1.player2_pos.y) + (
        be_i128(g1.player1_score) + (be_i128(g1.player2_score) + (g1.walls@ + (g1.loot@ + (
        g1.loot_collected@ + (g1.fog_p1@ + (g1.fog_p2@ + state_tail(g1)))))))))),
        be_u32(g2.player1_pos.x),
        be_u32(g2.player1_pos.y) + (be_u32(g2.player2_pos.x) + (be_u32(g2.player2_pos.y) + (
        be_i128(g2.player1_score) + (be_i128(g2.player2_score) + (g2.walls@ + (g2.loot@ + (
        g2.loot_collected@ + (g2.fog_p1@ + (g2.fog_p2@ + state_tail(g2)))))))))),
    );
    lemma_be_u32_injective(g1.player1_pos.x, g2.player1_pos.x);
    lemma_concat_eq_parts(
        be_u32(g1.player1_pos.y),
        be_u32(g1.player2_pos.x) + (be_u32(g1.player2_pos.y) + (be_i128(g1.player1_score) + (
        be_i128(g1.player2_score) + (g1.walls@ + (g1.loot@ + (g1.loot_collected@ + (g1.fog_p1@
            + (g1.fog_p2@ + state_tail(g1))))))))),
        be_u32(g2.player1_pos.y),
        be_u32(g2.player2_pos.x) + (be_u32(g2.player2_pos.y) + (be_i128(g2.player1_score) + (
        be_i128(g2.player2_score) + (g2.walls@ + (g2.loot@ + (g2.loot_collected@ + (g2.fog_p1@
            + (g2.fog_p2@ + state_tail(g2))))))))),
    );
    lemma_be_u32_injective(g1.player1_pos.y, g2.player1_pos.y);
    lemma_concat_eq_parts(
        be_u32(g1.player2_pos.x),
        be_u32(g1.player2_pos.y) + (be_i128(g1.player1_score) + (be_i128(g1.player2_score) + (
        g1.walls@ + (g1.loot@ + (g1.loot_collected@ + (g1.fog_p1@ + (g1.fog_p2@ + state_tail(
            g1,
        )))))))),
        be_u32(g2.player2_pos.x),
        be_u32(g2.player2_pos.y) + (be_i128(g2.player1_score) + (be_i128(g2.player2_score) + (
        g2.walls@ + (g2.loot@ + (g2.loot_collected@ + (g2.fog_p1@ + (g2.fog_p2@ + state_tail(
            g2,
        )))))))),
    );
    lemma_be_u32_injective(g1.player2_pos.x, g2.player2_pos.x);
    lemma_concat_eq_parts(
        be_u32(g1.player2_pos.y),
        be_i128(g1.player1_score) + (be_i128(g1.player2_score) + (g1.walls@ + (g1.loot@ + (
        g1.loot_collected@ + (g1.fog_p1@ + (g1.fog_p2@ + state_tail(g1))))))),
        be_u32(g2.player2_pos.y),
        be_i128(g2.player1_score) + (be_i128(g2.player2_score) + (g2.walls@ + (g2.loot@ + (
        g2.loot_collected@ + (g2.fog_p1@ + (g2.fog_p2@ + state_tail(g2))))))),
    );
    lemma_be_u32_injective(g1.player2_pos.y, g2.player2_pos.y);
    lemma_concat_eq_parts(
        be_i128(g1.player1_score),
        be_i128(g1.player2_score) + (g1.walls@ + (g1.loot@ + (g1.loot_collected@ + (g1.fog_p1@
            + (g1.fog_p2@ + state_tail(g1)))))),
        be_i128(g2.player1_score),
        be_i128(g2.player2_score) + (g2.walls@ + (g2.loot@ + (g2.loot_collected@ + (g2.fog_p1@
            + (g2.fog_p2@ + state_tail(g2)))))),
    );
    lemma_be_i128_injective(g1.player1_score, g2.player1_score);
    lemma_concat_eq_parts(
        be_i128(g1.player2_score),
        g1.walls@ + (g1.loot@ + (g1.loot_collected@ + (g1.fog_p1@ + (g1.fog_p2@ + state_tail(
            g1,
        ))))),
        be_i128(g2.player2_score),
        g2.walls@ + (g2.loot@ + (g2.loot_collected@ + (g2.fog_p1@ + (g2.fog_p2@ + state_tail(
            g2,
        ))))),
    );
    lemma_be_i128_injective(g1.player2_score, g2.player2_score);
    lemma_concat_eq_parts(
        g1.walls@,
        g1.loot@ + (g1.loot_collected@ + (g1.fog_p1@ + (g1.fog_p2@ + state_tail(g1)))),
        g2.walls@,
        g2.loot@ + (g2.loot_collected@ + (g2.fog_p1@ + (g2.fog_p2@ + state_tail(g2)))),
    );
    lemma_concat_eq_parts(
        g1.loot@,
        g1.loot_collected@ + (g1.fog_p1@ + (g1.fog_p2@ + state_tail(g1))),
        g2.loot@,
        g2.loot_collected@ + (g2.fog_p1@ + (g2.fog_p2@ + state_tail(g2))),
    );
    lemma_concat_eq_parts(
        g1.loot_collected@,
        g1.fog_p1@ + (g1.fog_p2@ + state_tail(g1)),
        g2.loot_collected@,
        g2.fog_p1@ + (g2.fog_p2@ + state_tail(g2)),
    );
    lemma_concat_eq_parts(
        g1.fog_p1@,
        g1.fog_p2@ + state_tail(g1),
        g2.fog_p1@,
        g2.fog_p2@ + state_tail(g2),
    );
    lemma_concat_eq_parts(g1.fog_p2@, state_tail(g1), g2.fog_p2@, state_tail(g2));

    let t1 = state_tail(g1);
    let t2 = state_tail(g2);
    assert(t1.len() == (if g1.session_seed is Some {
        32int
    } else {
        0int
    }) + (if g1.deadline_ts is Some {
        8int
    } else {
        0int
    }));
    assert(t2.len() == (if g2.session_seed is Some {
        32int
    } else {
        0int
    }) + (if g2.deadline_ts is Some {
        8int
    } else {
        0int
    }));
    assert((g1.session_seed is Some) == (g2.session_seed is Some) && (g1.deadline_ts is Some)
        == (g2.deadline_ts is Some));
    if g1.session_seed is Some {
        lemma_concat_eq_parts(
            (g1.session_seed->0)@,
            if g1.deadline_ts is Some {
                be_u64(g1.deadline_ts->0)
            } else {
                Seq::<u8>::empty()
            },
            (g2.session_seed->0)@,
            if g2.deadline_ts is Some {
                be_u64(g2.deadline_ts->0)
            } else {
                Seq::<u8>::empty()
            },
        );
    } else {
        lemma_concat_eq_parts(
            Seq::<u8>::empty(),
            if g1.deadline_ts is Some {
                be_u64(g1.deadline_ts->0)
            } else {
                Seq::<u8>::empty()
            },
            Seq::<u8>::empty(),
            if g2.deadline_ts is Some {
                be_u64(g2.deadline_ts->0)
            } else {
                Seq::<u8>::empty()
            },
        );
    }
    if g1.deadline_ts is Some {
        lemma_be_u64_injective(g1.deadline_ts->0, g2.deadline_ts->0);
    }
}

} // verus!
