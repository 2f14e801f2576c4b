//! The companion verifier contract's core: parsing the binary Groth16
//! verification key and proof blob, computing the public-input linear
//! combination, and delegating the group arithmetic and the pairing
//! equation to the host's BN254 functions.
//!
//! Every host value crossing the boundary is a plain byte encoding, so
//! each host result can be given an opaque name and the verification
//! outcome is pinned as a function of the key and blob bytes alone. The
//! host rejects the call outright (failing the transaction before any of
//! these functions return) on byte encodings it cannot deserialize; the
//! conditions under which that happens are checked here first for every
//! G1 point, so the verified paths hand the host only encodings it
//! accepts. G2 encodings have no host-side pre-check, so an invalid G2
//! segment still aborts the call inside the pairing — the boundary's own
//! failure mode, as in the original contract.

use vstd::prelude::*;
use soroban_sdk::crypto::bn254::{Bn254G1Affine, Bn254G2Affine};
use crate::crypto::{keccak256, keccak_of, sha256, sha256_of};

verus! {

/// The BN254 base field modulus, big-endian.
pub open spec fn fq_modulus() -> Seq<u8> {
    seq![
        0x30u8,
        0x64,
        0x4e,
        0x72,
        0xe1,
        0x31,
        0xa0,
        0x29,
        0xb8,
        0x50,
        0x45,
        0xb6,
        0x81,
        0x81,
        0x58,
        0x5d,
        0x97,
        0x81,
        0x6a,
        0x91,
        0x68,
        0x71,
        0xca,
        0x8d,
        0x3c,
        0x20,
        0x8c,
        0x16,
        0xd8,
        0x7c,
        0xfd,
        0x47,
    ]
}

fn fq_modulus_arr() -> (r: [u8; 32])
    ensures
        r@ == fq_modulus(),
{
    let m: [u8; 32] = [
        0x30, 0x64, 0x4e, 0x72, 0xe1, 0x31, 0xa0, 0x29, 0xb8, 0x50, 0x45, 0xb6, 0x81, 0x81, 0x58,
        0x5d, 0x97, 0x81, 0x6a, 0x91, 0x68, 0x71, 0xca, 0x8d, 0x3c, 0x20, 0x8c, 0x16, 0xd8, 0x7c,
        0xfd, 0x47,
    ];
    proof {
        assert(m@ =~= fq_modulus());
    }
    m
}

/// Strict big-endian lexicographic order on 32-byte values, scanned from
/// position `i`.
pub open spec fn be_lt(a: Seq<u8>, b: Seq<u8>, i: int) -> bool
    recommends
        a.len() == 32,
        b.len() == 32,
    decreases 32 - i,
{
    if i >= 32 {
        false
    } else if a[i] < b[i] {
        true
    } else if a[i] > b[i] {
        false
    } else {
        be_lt(a, b, i + 1)
    }
}

/// Whether a G1 encoding keeps the two serialization flag bits clear;
/// the host refuses to deserialize any encoding with either bit set.
pub open spec fn g1_flags_clear(b: Seq<u8>) -> bool {
    b[0] & 0xC0u8 == 0
}

/// Whether both coordinates of a G1 encoding are canonical (reduced)
/// field elements; the host's field deserialization rejects anything
/// larger, and the guest-side negation panics on a non-canonical Y.
pub open spec fn g1_coords_canonical(b: Seq<u8>) -> bool {
    be_lt(b.subrange(0, 32), fq_modulus(), 0) && be_lt(b.subrange(32, 64), fq_modulus(), 0)
}

/// The host's on-curve verdict for a 64-byte G1 encoding (the all-zero
/// infinity encoding counts as on the curve).
pub uninterp spec fn g1_on_curve_of(b: Seq<u8>) -> bool;

/// The encoding of the negation of a G1 point.
pub uninterp spec fn g1_neg_of(b: Seq<u8>) -> Seq<u8>;

/// The encoding of the sum of two G1 points.
pub uninterp spec fn g1_add_of(a: Seq<u8>, b: Seq<u8>) -> Seq<u8>;

/// The encoding of a G1 point multiplied by a scalar read big-endian.
pub uninterp spec fn g1_mul_of(p: Seq<u8>, s: Seq<u8>) -> Seq<u8>;

/// The host's verdict on whether the product of the four pairings of the
/// given G1/G2 encoding pairs equals one in the target group.
pub uninterp spec fn pairing4_of(
    a1: Seq<u8>,
    a2: Seq<u8>,
    a3: Seq<u8>,
    a4: Seq<u8>,
    b1: Seq<u8>,
    b2: Seq<u8>,
    b3: Seq<u8>,
    b4: Seq<u8>,
) -> bool;

/// An encoding the host's G1 deserialization accepts: flag bits clear,
/// both coordinates canonical, and the on-curve check passes (the
/// all-zero infinity encoding passes all three).
pub open spec fn g1_ok(b: Seq<u8>) -> bool {
    g1_flags_clear(b) && g1_coords_canonical(b) && g1_on_curve_of(b)
}

/// Relies on the host's `bn254_g1_is_on_curve`: a pure verdict on the 64
/// encoding bytes. With the flag bits clear and both coordinates below
/// the field modulus the host's deserialization cannot fail, and it
/// reports whether the point (or the all-zero infinity encoding)
/// satisfies the curve equation.
#[verifier::external_body]
fn g1_is_on_curve(env: &soroban_sdk::Env, b: &[u8; 64]) -> (r: bool)
    requires
        g1_flags_clear(b@),
        g1_coords_canonical(b@),
    ensures
        r == g1_on_curve_of(b@),
{
    let p = Bn254G1Affine::from_array(env, b);
    env.crypto().bn254().g1_is_on_curve(&p)
}

/// Relies on the SDK's G1 `Neg`: the Y coordinate is replaced by its
/// modular negation, byte-for-byte on the encoding, so the result is a
/// function of the input bytes; it panics only on a non-canonical Y,
/// which the precondition excludes. The X bytes (and with them the flag
/// bits) are untouched, the negated Y is again reduced, and the negation
/// of an accepted curve point is an accepted curve point.
#[verifier::external_body]
fn g1_neg(env: &soroban_sdk::Env, b: &[u8; 64]) -> (r: [u8; 64])
    requires
        g1_ok(b@),
    ensures
        r@ == g1_neg_of(b@),
        g1_ok(r@),
{
    let p = Bn254G1Affine::from_array(env, b);
    (-p).to_array()
}

/// Relies on the host's `bn254_g1_add`: deterministic point addition on
/// the encodings; the host accepts exactly the encodings `g1_ok` admits
/// and returns the canonical serialization of a curve point, which is
/// itself accepted.
#[verifier::external_body]
fn g1_add(env: &soroban_sdk::Env, a: &[u8; 64], b: &[u8; 64]) -> (r: [u8; 64])
    requires
        g1_ok(a@),
        g1_ok(b@),
    ensures
        r@ == g1_add_of(a@, b@),
        g1_ok(r@),
{
    let pa = Bn254G1Affine::from_array(env, a);
    let pb = Bn254G1Affine::from_array(env, b);
    env.crypto().bn254().g1_add(&pa, &pb).to_array()
}

/// Relies on the host's `bn254_g1_mul` and the SDK's `Bn254Fr::from_bytes`
/// (which reduces the 32 big-endian bytes modulo the scalar field, never
/// failing): deterministic scalar multiplication on the encodings, with
/// the same acceptance and canonical-result behavior as the addition.
#[verifier::external_body]
fn g1_mul(env: &soroban_sdk::Env, p: &[u8; 64], s: &[u8; 32]) -> (r: [u8; 64])
    requires
        g1_ok(p@),
    ensures
        r@ == g1_mul_of(p@, s@),
        g1_ok(r@),
{
    let pp = Bn254G1Affine::from_array(env, p);
    let scalar = soroban_sdk::crypto::bn254::Bn254Fr::from_bytes(
        soroban_sdk::BytesN::from_array(env, s),
    );
    env.crypto().bn254().g1_mul(&pp, &scalar).to_array()
}

/// Relies on the host's `bn254_multi_pairing_check` over four point
/// pairs: a deterministic verdict on the encodings. The G1 encodings must
/// be ones the host accepts; the host fully validates the G2 encodings
/// itself (on-curve and subgroup) and rejects the whole call — failing
/// the transaction before this function returns — when one is invalid,
/// the boundary's own failure mode.
#[verifier::external_body]
fn pairing_check4(
    env: &soroban_sdk::Env,
    a1: &[u8; 64],
    a2: &[u8; 64],
    a3: &[u8; 64],
    a4: &[u8; 64],
    b1: &[u8; 128],
    b2: &[u8; 128],
    b3: &[u8; 128],
    b4: &[u8; 128],
) -> (r: bool)
    requires
        g1_ok(a1@),
        g1_ok(a2@),
        g1_ok(a3@),
        g1_ok(a4@),
    ensures
        r == pairing4_of(a1@, a2@, a3@, a4@, b1@, b2@, b3@, b4@),
{
    let mut vp1 = soroban_sdk::Vec::new(env);
    vp1.push_back(Bn254G1Affine::from_array(env, a1));
    vp1.push_back(Bn254G1Affine::from_array(env, a2));
    vp1.push_back(Bn254G1Affine::from_array(env, a3));
    vp1.push_back(Bn254G1Affine::from_array(env, a4));
    let mut vp2 = soroban_sdk::Vec::new(env);
    vp2.push_back(Bn254G2Affine::from_array(env, b1));
    vp2.push_back(Bn254G2Affine::from_array(env, b2));
    vp2.push_back(Bn254G2Affine::from_array(env, b3));
    vp2.push_back(Bn254G2Affine::from_array(env, b4));
    env.crypto().bn254().pairing_check(vp1, vp2)
}

/// Tests whether the host will accept a G1 encoding: flag bits, then
/// canonical coordinates, then the on-curve verdict.
fn g1_gate(env: &soroban_sdk::Env, b: &[u8; 64]) -> (r: bool)
    ensures
        r == g1_ok(b@),
{
    if (b[0] & 0xC0) != 0 {
        return false;
    }
    if !coord_below_modulus(b, 0) || !coord_below_modulus(b, 32) {
        return false;
    }
    g1_is_on_curve(env, b)
}

/// Tests whether the 32-byte coordinate at `off` is below the modulus.
fn coord_below_modulus(b: &[u8; 64], off: usize) -> (r: bool)
    requires
        off == 0 || off == 32,
    ensures
        r == be_lt(b@.subrange(off as int, off + 32), fq_modulus(), 0),
{
    let m = fq_modulus_arr();
    let ghost c = b@.subrange(off as int, off + 32);
    let mut i: usize = 0;
    while i < 32
        invariant
            i <= 32,
            off == 0 || off == 32,
            m@ == fq_modulus(),
            c == b@.subrange(off as int, off + 32),
            be_lt(c, fq_modulus(), 0) == be_lt(c, fq_modulus(), i as int),
        decreases 32 - i,
    {
        proof {
            assert(c[i as int] == b@[off + i]);
        }
        if b[off + i] < m[i] {
            return true;
        }
        if b[off + i] > m[i] {
            return false;
        }
        i = i + 1;
    }
    false
}

/// The byte at `i`, or zero past the end: how the verifier reads headers
/// from possibly short buffers.
pub open spec fn byte_or0(b: Seq<u8>, i: int) -> u8 {
    if 0 <= i < b.len() {
        b[i]
    } else {
        0u8
    }
}

/// The big-endian `u32` at `off`, with missing bytes read as zero.
pub open spec fn u32_be_at(b: Seq<u8>, off: int) -> int {
    byte_or0(b, off) * 0x1000000 + byte_or0(b, off + 1) * 0x10000 + byte_or0(b, off + 2) * 0x100
        + byte_or0(b, off + 3)
}

/// Reads a big-endian `u32`, treating bytes past the end as zero.
pub fn read_u32_be(blob: &Vec<u8>, offset: u32) -> (r: u32)
    requires
        offset + 3 <= u32::MAX,
    ensures
        r == u32_be_at(blob@, offset as int),
{
    let b0 = byte_at_or0(blob, offset) as u32;
    let b1 = byte_at_or0(blob, offset + 1) as u32;
    let b2 = byte_at_or0(blob, offset + 2) as u32;
    let b3 = byte_at_or0(blob, offset + 3) as u32;
    b0 * 0x1000000 + b1 * 0x10000 + b2 * 0x100 + b3
}

fn byte_at_or0(blob: &Vec<u8>, offset: u32) -> (r: u8)
    ensures
        r == byte_or0(blob@, offset as int),
{
    if (offset as usize) < blob.len() {
        blob[offset as usize]
    } else {
        0
    }
}

/// Copies `N` bytes starting at `offset` into a fixed array.
fn read_arr<const N: usize>(blob: &Vec<u8>, offset: usize) -> (r: [u8; N])
    requires
        offset + N <= blob@.len(),
    ensures
        r@ == blob@.subrange(offset as int, offset + N),
{
    let mut out: [u8; N] = [0u8; N];
    let blob_len = blob.len();
    let mut i: usize = 0;
    while i < N
        invariant
            i <= N,
            blob_len == blob@.len(),
            offset + N <= blob_len,
            forall|j: int| 0 <= j < i ==> out@[j] == blob@[offset + j],
        decreases N - i,
    {
        out[i] = blob[offset + i];
        i = i + 1;
    }
    proof {
        assert(out@ =~= blob@.subrange(offset as int, offset + N));
    }
    out
}

/// The 64-byte G1 encoding at `off`.
pub open spec fn g1_at(b: Seq<u8>, off: int) -> Seq<u8> {
    b.subrange(off, off + 64)
}

/// The 128-byte G2 encoding at `off`.
pub open spec fn g2_at(b: Seq<u8>, off: int) -> Seq<u8> {
    b.subrange(off, off + 128)
}

/// The 32-byte scalar encoding at `off`.
pub open spec fn fr_at(b: Seq<u8>, off: int) -> Seq<u8> {
    b.subrange(off, off + 32)
}

/// Whether the verification key and proof blob have the exact binary
/// layout the Groth16 check expects: a key of at least 452 bytes carrying
/// `n_ic` IC points, a proof announcing `n_ic - 1` public inputs, and both
/// buffers long enough for every read.
pub open spec fn groth16_frame_ok(vk: Seq<u8>, blob: Seq<u8>) -> bool {
    let n_ic = u32_be_at(vk, 448);
    let n_pub = u32_be_at(blob, 0);
    &&& vk.len() >= 452
    &&& vk.len() >= 452 + n_ic * 64
    &&& n_pub + 1 == n_ic
    &&& blob.len() >= 4 + n_pub * 32 + 64 + 128 + 64
}

/// Whether every G1 encoding the check must hand to the host — alpha,
/// the IC points, and the proof's A and C — is one the host accepts.
pub open spec fn groth16_points_ok(vk: Seq<u8>, blob: Seq<u8>) -> bool {
    let n_pub = u32_be_at(blob, 0);
    let pi_a_off = 4 + n_pub * 32;
    &&& g1_ok(g1_at(vk, 0))
    &&& forall|i: int| 0 <= i <= n_pub ==> #[trigger] g1_ok(g1_at(vk, 452 + i * 64))
    &&& g1_ok(g1_at(blob, pi_a_off))
    &&& g1_ok(g1_at(blob, pi_a_off + 192))
}

/// The public-input linear combination, as an encoding chain: IC[0] plus
/// the sum of each public input scalar times its IC point.
pub open spec fn vk_x_chain(vk: Seq<u8>, blob: Seq<u8>, n: int) -> Seq<u8>
    decreases n,
{
    if n <= 0 {
        g1_at(vk, 452)
    } else {
        g1_add_of(
            vk_x_chain(vk, blob, n - 1),
            g1_mul_of(g1_at(vk, 452 + n * 64), fr_at(blob, 4 + (n - 1) * 32)),
        )
    }
}

/// The host's verdict on the Groth16 pairing equation
/// e(-A, B) * e(alpha, beta) * e(vk_x, gamma) * e(C, delta) == 1 for the
/// points encoded in the key and blob.
pub open spec fn groth16_pairing_ok(vk: Seq<u8>, blob: Seq<u8>) -> bool {
    let n_pub = u32_be_at(blob, 0);
    let pi_a_off = 4 + n_pub * 32;
    pairing4_of(
        g1_neg_of(g1_at(blob, pi_a_off)),
        g1_at(vk, 0),
        vk_x_chain(vk, blob, n_pub),
        g1_at(blob, pi_a_off + 192),
        g2_at(blob, pi_a_off + 64),
        g2_at(vk, 64),
        g2_at(vk, 192),
        g2_at(vk, 320),
    )
}

/// The public-input field element embedded in a proof blob.
pub open spec fn blob_public_input(blob: Seq<u8>) -> Seq<u8> {
    blob.subrange(4, 36)
}

/// The deterministic identifier of a verified proof blob.
pub open spec fn proof_id_of(blob: Seq<u8>) -> Seq<u8> {
    keccak_of(blob)
}

/// The deterministic game-state verifier contract's entry points, grouped
/// as methods of one type.
pub struct ZkVerifierContract;

impl ZkVerifierContract {
    /// Verifies a Groth16 proof against a binary verification key using
    /// the host's BN254 functions: `Some` exactly when the framing is
    /// right, every G1 encoding is one the host accepts, and the pairing
    /// equation holds; the `Some` carries exactly the blob's embedded
    /// public-input bytes. An invalid G2 segment aborts the call inside
    /// the host instead (see the module note).
    pub fn verify_groth16(
        env: &soroban_sdk::Env,
        vk: &Vec<u8>,
        proof_blob: &Vec<u8>,
    ) -> (r: Option<[u8; 32]>)
        ensures
            r is Some <==> groth16_frame_ok(vk@, proof_blob@) && groth16_points_ok(
                vk@,
                proof_blob@,
            ) && groth16_pairing_ok(vk@, proof_blob@),
            r is Some ==> (r->0)@ == blob_public_input(proof_blob@),
    {
        if vk.len() < 452 {
            return None;
        }
        let n_ic = read_u32_be(vk, 448);

        let vk_min_len: u64 = 452 + (n_ic as u64) * 64;
        if (vk.len() as u64) < vk_min_len {
            return None;
        }

        let n_pub = read_u32_be(proof_blob, 0);
        if (n_pub as u64) + 1 != n_ic as u64 {
            return None;
        }
        let pi_a_offset: u64 = 4 + (n_pub as u64) * 32;
        let pi_b_offset: u64 = pi_a_offset + 64;
        let pi_c_offset: u64 = pi_b_offset + 128;

        if (proof_blob.len() as u64) < pi_c_offset + 64 {
            return None;
        }

        let alpha = read_arr::<64>(vk, 0);
        if !g1_gate(env, &alpha) {
            return None;
        }
        let pi_a = read_arr::<64>(proof_blob, pi_a_offset as usize);
        if !g1_gate(env, &pi_a) {
            return None;
        }
        let pi_c = read_arr::<64>(proof_blob, pi_c_offset as usize);
        if !g1_gate(env, &pi_c) {
            return None;
        }

        let ic0 = read_arr::<64>(vk, 452);
        if !g1_gate(env, &ic0) {
            proof {
                let n0: int = 0;
                assert(!g1_ok(g1_at(vk@, 452 + n0 * 64)));
            }
            return None;
        }
        let mut vk_x = ic0;

        let vk_len = vk.len();
        let blob_len = proof_blob.len();
        let mut i: u32 = 0;
        while i < n_pub
            invariant
                vk_len == vk@.len(),
                blob_len == proof_blob@.len(),
                i <= n_pub,
                n_pub == u32_be_at(proof_blob@, 0),
                452 + (n_pub as int + 1) * 64 <= vk_len,
                4 + (n_pub as int) * 32 + 256 <= blob_len,
                vk_x@ == vk_x_chain(vk@, proof_blob@, i as int),
                g1_ok(vk_x@),
                forall|m: int| 1 <= m <= i ==> #[trigger] g1_ok(g1_at(vk@, 452 + m * 64)),
            decreases n_pub - i,
        {
            let ic_i = read_arr::<64>(vk, 452 + (i as usize + 1) * 64);
            if !g1_gate(env, &ic_i) {
                proof {
                    assert(!g1_ok(g1_at(vk@, 452 + (i + 1) * 64)));
                }
                return None;
            }
            let scalar = read_arr::<32>(proof_blob, 4 + (i as usize) * 32);
            let term = g1_mul(env, &ic_i, &scalar);
            vk_x = g1_add(env, &vk_x, &term);
            i = i + 1;
        }

        let neg_pi_a = g1_neg(env, &pi_a);
        let pi_b = read_arr::<128>(proof_blob, pi_b_offset as usize);
        let beta = read_arr::<128>(vk, 64);
        let gamma = read_arr::<128>(vk, 192);
        let delta = read_arr::<128>(vk, 320);
        if !pairing_check4(env, &neg_pi_a, &alpha, &vk_x, &pi_c, &pi_b, &beta, &gamma, &delta) {
            return None;
        }

        Some(read_arr::<32>(proof_blob, 4))
    }

    /// Checks a proof against a stored verification key: `Some` exactly
    /// when `verify_groth16` accepts, carrying the proof's deterministic
    /// identifier — the Keccak-256 digest of the whole blob. The shell
    /// panics on `None`, as rejecting the transaction is the contract's
    /// failure mode.
    pub fn verify_proof_with_stored_vk(
        env: &soroban_sdk::Env,
        vk: &Vec<u8>,
        proof_blob: &Vec<u8>,
    ) -> (r: Option<[u8; 32]>)
        ensures
            r is Some <==> groth16_frame_ok(vk@, proof_blob@) && groth16_points_ok(
                vk@,
                proof_blob@,
            ) && groth16_pairing_ok(vk@, proof_blob@),
            r is Some ==> (r->0)@ == proof_id_of(proof_blob@),
    {
        match Self::verify_groth16(env, vk, proof_blob) {
            Some(_) => Some(keccak256(env, proof_blob)),
            None => None,
        }
    }

    /// The digest under which a verification key is published: its SHA-256
    /// hash, as `set_vk` returns it.
    pub fn vk_hash(env: &soroban_sdk::Env, vk: &Vec<u8>) -> (r: [u8; 32])
        ensures
            r@ == sha256_of(vk@),
    {
        sha256(env, vk)
    }
}

} // verus!
