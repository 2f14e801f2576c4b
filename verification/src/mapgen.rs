//! Deterministic procedural map generation: walls, loot, cameras and lasers
//! are all placed by seeded pseudorandom draws with rejection of collisions
//! and of the two protected spawn neighborhoods.
//!
//! Each placement pass is modelled by a recursive spec function that mirrors
//! its bounded draw loop, so the generated map is pinned exactly: equal
//! seeds give equal boards.

use vstd::prelude::*;
use crate::bits::{
    bit_is_set, bit_set, cell_of, lemma_bit_set_effect, lemma_cell_decomp, lemma_cell_of,
    lemma_zero_bits_clear, spec_bit_is_set, spec_bit_set,
};
use crate::engine::{near_spawn, seeded_u32, spec_near_spawn, spec_seeded_u32};
use crate::types::{Camera, Laser};

verus! {

/// The all-zero board bitset.
pub open spec fn zero_bits() -> Seq<u8> {
    Seq::new(18, |i: int| 0u8)
}

/// The board cell targeted by one pseudorandom draw.
pub open spec fn draw_x(r: u32) -> int {
    (r % 12) as int
}

/// The board row targeted by one pseudorandom draw.
pub open spec fn draw_y(r: u32) -> int {
    ((r / 12) % 12) as int
}

/// Wall bitset and placed-wall count after the first `n` wall draws: each
/// draw is rejected near a spawn or on an existing wall, and drawing stops
/// once 18 walls stand.
pub open spec fn walls_state(seed: Seq<u8>, n: nat) -> (Seq<u8>, nat)
    decreases n,
{
    if n == 0 {
        (zero_bits(), 0)
    } else {
        let prev = walls_state(seed, (n - 1) as nat);
        if prev.1 >= 18 {
            prev
        } else {
            let r = spec_seeded_u32(seed, 1, (n - 1) as u32);
            let x = draw_x(r);
            let y = draw_y(r);
            if !spec_near_spawn(x, y) && !spec_bit_is_set(prev.0, cell_of(x, y)) {
                (spec_bit_set(prev.0, cell_of(x, y)), prev.1 + 1)
            } else {
                prev
            }
        }
    }
}

/// Loot bitset and placed-loot count after the first `n` loot draws over a
/// fixed wall bitset: draws near a spawn, on a wall, or on existing loot are
/// rejected, and drawing stops once 24 loot cells stand.
pub open spec fn loot_state(seed: Seq<u8>, walls: Seq<u8>, n: nat) -> (Seq<u8>, nat)
    decreases n,
{
    if n == 0 {
        (zero_bits(), 0)
    } else {
        let prev = loot_state(seed, walls, (n - 1) as nat);
        if prev.1 >= 24 {
            prev
        } else {
            let r = spec_seeded_u32(seed, 2, (n - 1) as u32);
            let x = draw_x(r);
            let y = draw_y(r);
            let bit = cell_of(x, y);
            if !spec_near_spawn(x, y) && !spec_bit_is_set(walls, bit) && !spec_bit_is_set(
                prev.0,
                bit,
            ) {
                (spec_bit_set(prev.0, bit), prev.1 + 1)
            } else {
                prev
            }
        }
    }
}

/// The cameras standing after the first `n` camera draws; draws near a
/// spawn place nothing.
pub open spec fn cameras_state(seed: Seq<u8>, n: nat) -> Seq<Camera>
    decreases n,
{
    if n == 0 {
        Seq::empty()
    } else {
        let prev = cameras_state(seed, (n - 1) as nat);
        let r = spec_seeded_u32(seed, 3, (n - 1) as u32);
        let x = draw_x(r);
        let y = draw_y(r);
        if !spec_near_spawn(x, y) {
            prev.push(Camera { x: x as u32, y: y as u32, radius: 2 })
        } else {
            prev
        }
    }
}

/// The lasers standing after the first `n` laser draws: an even draw aims a
/// horizontal beam, an odd draw a vertical one, and beams too close to a
/// spawn row or column place nothing.
pub open spec fn lasers_state(seed: Seq<u8>, n: nat) -> Seq<Laser>
    decreases n,
{
    if n == 0 {
        Seq::empty()
    } else {
        let prev = lasers_state(seed, (n - 1) as nat);
        let r = spec_seeded_u32(seed, 4, (n - 1) as u32);
        if r & 1 == 0 {
            let y = ((r / 17) % 12) as u32;
            if 1 < y < 10 {
                prev.push(Laser { x1: 1, y1: y, x2: 10, y2: y })
            } else {
                prev
            }
        } else {
            let x = ((r / 17) % 12) as u32;
            if 1 < x < 10 {
                prev.push(Laser { x1: x, y1: 1, x2: x, y2: 10 })
            } else {
                prev
            }
        }
    }
}

/// Generates the full board layout for a session seed. The result is a
/// function of the seed alone: every draw and every rejection is fixed by
/// the spec model in the postcondition.
pub fn generate_map(env: &soroban_sdk::Env, seed: &[u8; 32]) -> (r: (
    [u8; 18],
    [u8; 18],
    Vec<Camera>,
    Vec<Laser>,
))
    ensures
        r.0@ == walls_state(seed@, 500).0,
        r.1@ == loot_state(seed@, r.0@, 1000).0,
        r.2@ == cameras_state(seed@, 3),
        r.3@ == lasers_state(seed@, 2),
{
    let mut walls: [u8; 18] = [0u8; 18];
    let mut loot: [u8; 18] = [0u8; 18];
    proof {
        assert(walls@ =~= zero_bits());
        assert(loot@ =~= zero_bits());
    }

    let mut i: u32 = 0;
    let mut placed_walls: u32 = 0;
    while i < 500 && placed_walls < 18
        invariant
            i <= 500,
            walls@ == walls_state(seed@, i as nat).0,
            placed_walls as nat == walls_state(seed@, i as nat).1,
        decreases 500 - i,
    {
        let r = seeded_u32(env, seed, 1, i);
        let x = r % 12;
        let y = (r / 12) % 12;
        proof {
            lemma_cell_of(x as int, y as int);
        }
        if !near_spawn(x, y) {
            let bit = y * 12 + x;
            if !bit_is_set(&walls, bit) {
                bit_set(&mut walls, bit);
                placed_walls = placed_walls + 1;
            }
        }
        i = i + 1;
    }
    proof {
        if i < 500 {
            lemma_walls_stable(seed@, i as nat, 500);
        }
    }

    let mut j: u32 = 0;
    let mut placed_loot: u32 = 0;
    while j < 1000 && placed_loot < 24
        invariant
            j <= 1000,
            walls@ == walls_state(seed@, 500).0,
            loot@ == loot_state(seed@, walls@, j as nat).0,
            placed_loot as nat == loot_state(seed@, walls@, j as nat).1,
        decreases 1000 - j,
    {
        let r = seeded_u32(env, seed, 2, j);
        let x = r % 12;
        let y = (r / 12) % 12;
        proof {
            lemma_cell_of(x as int, y as int);
        }
        let bit = y * 12 + x;
        if !near_spawn(x, y) && !bit_is_set(&walls, bit) && !bit_is_set(&loot, bit) {
            bit_set(&mut loot, bit);
            placed_loot = placed_loot + 1;
        }
        j = j + 1;
    }
    proof {
        if j < 1000 {
            lemma_loot_stable(seed@, walls@, j as nat, 1000);
        }
    }

    let mut cameras: Vec<Camera> = Vec::new();
    let mut c: u32 = 0;
    while c < 3
        invariant
            c <= 3,
            cameras@ == cameras_state(seed@, c as nat),
        decreases 3 - c,
    {
        let r = seeded_u32(env, seed, 3, c);
        let x = r % 12;
        let y = (r / 12) % 12;
        if !near_spawn(x, y) {
            cameras.push(Camera { x, y, radius: 2 });
        }
        c = c + 1;
    }

    let mut lasers: Vec<Laser> = Vec::new();
    let mut l: u32 = 0;
    while l < 2
        invariant
            l <= 2,
            lasers@ == lasers_state(seed@, l as nat),
        decreases 2 - l,
    {
        let r = seeded_u32(env, seed, 4, l);
        if (r & 1) == 0 {
            let y = (r / 17) % 12;
            if y > 1 && y < 10 {
                lasers.push(Laser { x1: 1, y1: y, x2: 10, y2: y });
            }
        } else {
            let x = (r / 17) % 12;
            if x > 1 && x < 10 {
                lasers.push(Laser { x1: x, y1: 1, x2: x, y2: 10 });
            }
        }
        l = l + 1;
    }

    (walls, loot, cameras, lasers)
}

proof fn lemma_walls_len(seed: Seq<u8>, n: nat)
    ensures
        walls_state(seed, n).0.len() == 18,
    decreases n,
{
    if n > 0 {
        lemma_walls_len(seed, (n - 1) as nat);
    }
}

proof fn lemma_loot_len(seed: Seq<u8>, walls: Seq<u8>, n: nat)
    ensures
        loot_state(seed, walls, n).0.len() == 18,
    decreases n,
{
    if n > 0 {
        lemma_loot_len(seed, walls, (n - 1) as nat);
    }
}

/// No generated wall stands inside a protected spawn neighborhood.
pub proof fn lemma_walls_spawn_free(seed: Seq<u8>, n: nat, j: int)
    requires
        0 <= j < 144,
        spec_bit_is_set(walls_state(seed, n).0, j),
    ensures
        !spec_near_spawn(j % 12, j / 12),
    decreases n,
{
    lemma_cell_decomp(j);
    if n == 0 {
        lemma_zero_bits_clear(j);
    } else {
        lemma_walls_len(seed, (n - 1) as nat);
        let prev = walls_state(seed, (n - 1) as nat);
        let r = spec_seeded_u32(seed, 1, (n - 1) as u32);
        let x = draw_x(r);
        let y = draw_y(r);
        if prev.1 < 18 && !spec_near_spawn(x, y) && !spec_bit_is_set(prev.0, cell_of(x, y)) {
            lemma_cell_of(x, y);
            lemma_bit_set_effect(prev.0, cell_of(x, y), j);
            if j != cell_of(x, y) {
                lemma_walls_spawn_free(seed, (n - 1) as nat, j);
            }
        } else {
            lemma_walls_spawn_free(seed, (n - 1) as nat, j);
        }
    }
}

/// No generated loot cell stands inside a spawn neighborhood or on a
/// wall of the board it was drawn against.
pub proof fn lemma_loot_spawn_free_and_off_walls(seed: Seq<u8>, walls: Seq<u8>, n: nat, j: int)
    requires
        walls.len() == 18,
        0 <= j < 144,
        spec_bit_is_set(loot_state(seed, walls, n).0, j),
    ensures
        !spec_near_spawn(j % 12, j / 12),
        !spec_bit_is_set(walls, j),
    decreases n,
{
    lemma_cell_decomp(j);
    if n == 0 {
        lemma_zero_bits_clear(j);
    } else {
        lemma_loot_len(seed, walls, (n - 1) as nat);
        let prev = loot_state(seed, walls, (n - 1) as nat);
        let r = spec_seeded_u32(seed, 2, (n - 1) as u32);
        let x = draw_x(r);
        let y = draw_y(r);
        if prev.1 < 24 && !spec_near_spawn(x, y) && !spec_bit_is_set(walls, cell_of(x, y))
            && !spec_bit_is_set(prev.0, cell_of(x, y)) {
            lemma_cell_of(x, y);
            lemma_bit_set_effect(prev.0, cell_of(x, y), j);
            if j != cell_of(x, y) {
                lemma_loot_spawn_free_and_off_walls(seed, walls, (n - 1) as nat, j);
            }
        } else {
            lemma_loot_spawn_free_and_off_walls(seed, walls, (n - 1) as nat, j);
        }
    }
}

/// Every generated camera stands on the board.
pub proof fn lemma_cameras_wf(seed: Seq<u8>, n: nat)
    ensures
        forall|i: int|
            0 <= i < cameras_state(seed, n).len() ==> (#[trigger] cameras_state(seed, n)[i]).wf(),
    decreases n,
{
    if n > 0 {
        lemma_cameras_wf(seed, (n - 1) as nat);
        let prev = cameras_state(seed, (n - 1) as nat);
        let cur = cameras_state(seed, n);
        assert forall|i: int| 0 <= i < cur.len() implies (#[trigger] cur[i]).wf() by {
            if i < prev.len() {
                assert(cur[i] == prev[i]);
            } else {
                assert(cur[i] == cur.last());
            }
        }
    }
}

/// Every generated laser keeps both endpoints on the board.
pub proof fn lemma_lasers_wf(seed: Seq<u8>, n: nat)
    ensures
        forall|i: int|
            0 <= i < lasers_state(seed, n).len() ==> (#[trigger] lasers_state(seed, n)[i]).wf(),
    decreases n,
{
    if n > 0 {
        lemma_lasers_wf(seed, (n - 1) as nat);
        let prev = lasers_state(seed, (n - 1) as nat);
        let cur = lasers_state(seed, n);
        assert forall|i: int| 0 <= i < cur.len() implies (#[trigger] cur[i]).wf() by {
            if i < prev.len() {
                assert(cur[i] == prev[i]);
            } else {
                assert(cur[i] == cur.last());
            }
        }
    }
}

/// Once the wall target is reached, further draws change nothing.
proof fn lemma_walls_stable(seed: Seq<u8>, n: nat, m: nat)
    requires
        n <= m,
        walls_state(seed, n).1 >= 18,
    ensures
        walls_state(seed, m) == walls_state(seed, n),
    decreases m - n,
{
    if n < m {
        lemma_walls_stable(seed, n, (m - 1) as nat);
    }
}

/// Once the loot target is reached, further draws change nothing.
proof fn lemma_loot_stable(seed: Seq<u8>, walls: Seq<u8>, n: nat, m: nat)
    requires
        n <= m,
        loot_state(seed, walls, n).1 >= 24,
    ensures
        loot_state(seed, walls, m) == loot_state(seed, walls, n),
    decreases m - n,
{
    if n < m {
        lemma_loot_stable(seed, walls, n, (m - 1) as nat);
    }
}

} // verus!
