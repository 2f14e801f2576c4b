//! Parsing of a verification key published as a JSON array of hex-string
//! field elements: ASCII hex decoding, limb recombination into curve-point
//! coordinates, and the scan for the first well-formed point block.
//!
//! The byte layout mirrors the prover's export format; every function is a
//! total parser over plain bytes.

use vstd::prelude::*;

verus! {

/// An elliptic-curve point as two 32-byte big-endian coordinates.
#[derive(Clone, Copy, Debug, Eq, PartialEq)]
pub struct G1Point {
    pub x: [u8; 32],
    pub y: [u8; 32],
}

/// The parsed verification key: circuit sizes and the fixed set of
/// commitment points the verifier consumes.
#[derive(Clone, Copy, Debug)]
pub struct VerificationKey {
    pub circuit_size: u64,
    pub log_circuit_size: u64,
    pub public_inputs_size: u64,
    pub qm: G1Point,
    pub qc: G1Point,
    pub ql: G1Point,
    pub qr: G1Point,
    pub qo: G1Point,
    pub q4: G1Point,
    pub q_lookup: G1Point,
    pub q_arith: G1Point,
    pub q_delta_range: G1Point,
    pub q_elliptic: G1Point,
    pub q_aux: G1Point,
    pub q_poseidon2_external: G1Point,
    pub q_poseidon2_internal: G1Point,
    pub s1: G1Point,
    pub s2: G1Point,
    pub s3: G1Point,
    pub s4: G1Point,
    pub id1: G1Point,
    pub id2: G1Point,
    pub id3: G1Point,
    pub id4: G1Point,
    pub t1: G1Point,
    pub t2: G1Point,
    pub t3: G1Point,
    pub t4: G1Point,
    pub lagrange_first: G1Point,
    pub lagrange_last: G1Point,
}

/// The value of one ASCII hex digit, or `None` for any other byte.
pub open spec fn spec_hex_val(b: u8) -> Option<u8> {
    if 48 <= b <= 57 {
        Some((b - 48) as u8)
    } else if 97 <= b <= 102 {
        Some((b - 87) as u8)
    } else if 65 <= b <= 70 {
        Some((b - 55) as u8)
    } else {
        None
    }
}

/// Decodes one ASCII hex digit.
pub fn hex_val(b: u8) -> (r: Option<u8>)
    ensures
        r == spec_hex_val(b),
{
    if b >= 48 && b <= 57 {
        Some(b - 48)
    } else if b >= 97 && b <= 102 {
        Some(10 + (b - 97))
    } else if b >= 65 && b <= 70 {
        Some(10 + (b - 65))
    } else {
        None
    }
}

/// A hex string's leading `0x` markers, removed repeatedly.
pub open spec fn strip_0x(s: Seq<u8>) -> Seq<u8>
    decreases s.len(),
{
    if s.len() >= 2 && s[0] == 48 && s[1] == 120 {
        strip_0x(s.skip(2))
    } else {
        s
    }
}

fn strip_0x_exec(s: &[u8]) -> (r: (usize, Ghost<Seq<u8>>))
    ensures
        r.1@ == strip_0x(s@),
        r.0 <= s@.len(),
        r.1@ == s@.skip(r.0 as int),
{
    let mut start: usize = 0;
    proof {
        assert(s@.skip(0) =~= s@);
    }
    while s.len() - start >= 2 && s[start] == 48 && s[start + 1] == 120
        invariant
            start <= s@.len(),
            strip_0x(s@) == strip_0x(s@.skip(start as int)),
        decreases s@.len() - start,
    {
        proof {
            assert(s@.skip(start as int).skip(2) =~= s@.skip(start + 2));
        }
        start = start + 2;
    }
    (start, Ghost(s@.skip(start as int)))
}

/// The value a lax hex scan gives one byte: the digit's value, or zero
/// for any byte that is no hex digit.
pub open spec fn hex_digit_or0(b: u8) -> u64 {
    match spec_hex_val(b) {
        Some(v) => v as u64,
        None => 0,
    }
}

/// The `u64` built by folding the first `n` bytes of `h` as hex digits,
/// high digits first, non-digits read as zero.
pub open spec fn hex_fold(h: Seq<u8>, n: int) -> u64
    decreases n,
{
    if n <= 0 {
        0
    } else {
        (hex_fold(h, n - 1) << 4) | hex_digit_or0(h[n - 1])
    }
}

/// The lax little-endian-tail hex read: after stripping `0x`, the last
/// sixteen hex characters (or all of them, if fewer) are folded into a
/// `u64`, any stray byte counting as zero.
pub open spec fn spec_parse_u64_hex_lsb(s: Seq<u8>) -> u64 {
    let h = strip_0x(s);
    let n = if h.len() >= 16 {
        16int
    } else {
        h.len() as int
    };
    hex_fold(h.skip(h.len() - n), n)
}

/// Reads a `u64` from the tail of a hex string, tolerating stray bytes.
pub fn parse_u64_hex_lsb(s: &[u8]) -> (r: u64)
    ensures
        r == spec_parse_u64_hex_lsb(s@),
{
    let (start, h) = strip_0x_exec(s);
    let hlen = s.len() - start;
    let n: usize = if hlen >= 16 {
        16
    } else {
        hlen
    };
    let tail_start = start + (hlen - n);
    let ghost tail = h@.skip((hlen - n) as int);
    proof {
        assert(tail =~= s@.skip(tail_start as int));
    }
    let slen = s.len();
    let mut out: u64 = 0;
    let mut i: usize = 0;
    while i < n
        invariant
            i <= n,
            slen == s@.len(),
            tail_start + n <= slen,
            tail == s@.skip(tail_start as int),
            out == hex_fold(tail, i as int),
        decreases n - i,
    {
        let b = s[tail_start + i];
        proof {
            assert(tail[i as int] == s@[tail_start + i]);
        }
        let v: u64 = match hex_val(b) {
            Some(d) => d as u64,
            None => 0,
        };
        out = (out << 4) | v;
        i = i + 1;
    }
    out
}

/// The decoding of a hex string into a 32-byte big-endian value, read
/// from the string's tail two digits per byte: the state after consuming
/// down to `i` input digits and `oi` output bytes. A stray non-hex byte
/// in the scanned range fails the decoding.
pub open spec fn hex_be32_step(h: Seq<u8>, i: int, oi: int, out: Seq<u8>) -> Option<Seq<u8>>
    decreases i,
{
    if i <= 0 || oi <= 0 {
        Some(out)
    } else {
        match spec_hex_val(h[i - 1]) {
            None => None,
            Some(low) => if i - 1 > 0 {
                match spec_hex_val(h[i - 2]) {
                    None => None,
                    Some(high) => hex_be32_step(
                        h,
                        i - 2,
                        oi - 1,
                        out.update(oi - 1, (high << 4) | low),
                    ),
                }
            } else {
                hex_be32_step(h, i - 1, oi - 1, out.update(oi - 1, low))
            },
        }
    }
}

/// The 32-byte value a hex string denotes, `0x` markers stripped.
pub open spec fn spec_hex_str_to_be32(s: Seq<u8>) -> Option<Seq<u8>> {
    let h = strip_0x(s);
    hex_be32_step(h, h.len() as int, 32, Seq::new(32, |k: int| 0u8))
}

/// Decodes a hex string into a 32-byte big-endian value, reading from the
/// tail; longer strings keep only their last 64 hex digits.
pub fn hex_str_to_be32(s: &[u8]) -> (r: Option<[u8; 32]>)
    ensures
        match r {
            Some(a) => spec_hex_str_to_be32(s@) == Some(a@),
            None => spec_hex_str_to_be32(s@) is None,
        },
{
    let (start, h) = strip_0x_exec(s);
    let slen = s.len();
    let hlen = slen - start;
    let mut out: [u8; 32] = [0u8; 32];
    proof {
        assert(out@ =~= Seq::new(32, |k: int| 0u8));
    }
    let mut oi: usize = 32;
    let mut i: usize = hlen;
    while i > 0 && oi > 0
        invariant
            slen == s@.len(),
            start + hlen == slen,
            i <= hlen,
            oi <= 32,
            h@ == s@.skip(start as int),
            spec_hex_str_to_be32(s@) == hex_be32_step(h@, i as int, oi as int, out@),
        decreases i,
    {
        let ghost ipre = i as int;
        let ghost oipre = oi as int;
        let ghost outpre = out@;
        let low = match hex_val(s[start + i - 1]) {
            Some(v) => v,
            None => {
                proof {
                    assert(h@[i - 1] == s@[start + i - 1]);
                }
                return None;
            },
        };
        proof {
            assert(h@[i - 1] == s@[start + i - 1]);
        }
        i = i - 1;
        let high: u8;
        if i > 0 {
            match hex_val(s[start + i - 1]) {
                Some(v) => {
                    proof {
                        assert(h@[i - 1] == s@[start + i - 1]);
                    }
                    high = v;
                    i = i - 1;
                },
                None => {
                    proof {
                        assert(h@[i - 1] == s@[start + i - 1]);
                    }
                    return None;
                },
            }
        } else {
            high = 0;
            proof {
                assert((0u8 << 4) | low == low) by (bit_vector);
            }
        }
        oi = oi - 1;
        out[oi] = (high << 4) | low;
        proof {
            assert(hex_be32_step(h@, ipre, oipre, outpre) == hex_be32_step(
                h@,
                i as int,
                oi as int,
                out@,
            ));
        }
    }
    Some(out)
}

/// Whether a byte is JSON whitespace (the ASCII whitespace characters).
pub open spec fn is_ws(b: u8) -> bool {
    b == 32 || (9 <= b <= 13)
}

/// The first position at or after `i` holding no whitespace.
pub open spec fn skip_ws(s: Seq<u8>, i: int) -> int
    decreases s.len() - i,
{
    if i < s.len() && is_ws(s[i]) {
        skip_ws(s, i + 1)
    } else {
        i
    }
}

/// The first position at or after `i` holding neither whitespace nor a
/// comma.
pub open spec fn skip_seps(s: Seq<u8>, i: int) -> int
    decreases s.len() - i,
{
    if i < s.len() && (is_ws(s[i]) || s[i] == 44) {
        skip_seps(s, i + 1)
    } else {
        i
    }
}

proof fn lemma_skip_ws_bounds(s: Seq<u8>, i: int)
    requires
        0 <= i <= s.len(),
    ensures
        i <= skip_ws(s, i) <= s.len(),
    decreases s.len() - i,
{
    if i < s.len() && is_ws(s[i]) {
        lemma_skip_ws_bounds(s, i + 1);
    }
}

proof fn lemma_skip_seps_bounds(s: Seq<u8>, i: int)
    requires
        0 <= i <= s.len(),
    ensures
        i <= skip_seps(s, i) <= s.len(),
    decreases s.len() - i,
{
    if i < s.len() && (is_ws(s[i]) || s[i] == 44) {
        lemma_skip_seps_bounds(s, i + 1);
    }
}

/// The scan of one quoted string body starting at `i`: its content, with
/// a backslash escaping the byte after it, and the position just past the
/// closing quote (or past the end when the input stops first).
pub open spec fn scan_string(s: Seq<u8>, i: int) -> (Seq<u8>, int)
    decreases s.len() - i,
{
    if i < 0 || i >= s.len() {
        (Seq::empty(), i)
    } else if s[i] == 34 {
        (Seq::empty(), i + 1)
    } else if s[i] == 92 {
        if i + 1 < s.len() {
            let rest = scan_string(s, i + 2);
            (seq![s[i + 1]] + rest.0, rest.1)
        } else {
            (Seq::empty(), i + 1)
        }
    } else {
        let rest = scan_string(s, i + 1);
        (seq![s[i]] + rest.0, rest.1)
    }
}

proof fn lemma_scan_string_bounds(s: Seq<u8>, i: int)
    requires
        0 <= i <= s.len(),
    ensures
        i <= scan_string(s, i).1 <= s.len(),
        i < s.len() ==> i < scan_string(s, i).1,
    decreases s.len() - i,
{
    if 0 <= i < s.len() {
        if s[i] == 34 {
        } else if s[i] == 92 {
            if i + 1 < s.len() {
                lemma_scan_string_bounds(s, i + 2);
            }
        } else {
            lemma_scan_string_bounds(s, i + 1);
        }
    }
}

/// The items of a JSON string array, parsed from position `i` onto the
/// accumulator: separators are skipped laxly, `]` ends the array, and
/// anything but a quoted string fails.
pub open spec fn parse_items(s: Seq<u8>, i: int, acc: Seq<Seq<u8>>) -> Option<Seq<Seq<u8>>>
    decreases s.len() - i,
        when 0 <= i <= s.len()
        via parse_items_dec
{
    let j = skip_seps(s, i);
    if j < s.len() && s[j] == 93 {
        Some(acc)
    } else if j < s.len() && s[j] == 34 {
        let scanned = scan_string(s, j + 1);
        parse_items(s, scanned.1, acc.push(scanned.0))
    } else {
        None
    }
}

#[via_fn]
proof fn parse_items_dec(s: Seq<u8>, i: int, acc: Seq<Seq<u8>>) {
    lemma_skip_seps_bounds(s, i);
    let j = skip_seps(s, i);
    if j < s.len() && s[j] != 93 && s[j] == 34 {
        lemma_scan_string_bounds(s, j + 1);
    }
}

/// The full parse of a JSON array of strings: optional leading
/// whitespace, `[`, then items.
pub open spec fn spec_parse_json_strings(s: Seq<u8>) -> Option<Seq<Seq<u8>>> {
    let i = skip_ws(s, 0);
    if i < s.len() && s[i] == 91 {
        parse_items(s, i + 1, Seq::empty())
    } else {
        None
    }
}

/// Parses a JSON array of strings from raw bytes, tolerating lax
/// separators; any token other than a quoted string or the closing
/// bracket fails the parse.
pub fn parse_json_array_of_strings(s: &[u8]) -> (r: Result<Vec<Vec<u8>>, ()>)
    ensures
        match r {
            Ok(v) => {
                let sp = spec_parse_json_strings(s@);
                &&& sp is Some
                &&& v@.len() == (sp->0).len()
                &&& forall|k: int| 0 <= k < v@.len() ==> (#[trigger] v@[k])@ == (sp->0)[k]
            },
            Err(_) => spec_parse_json_strings(s@) is None,
        },
{
    let slen = s.len();
    let mut i: usize = 0;
    while i < slen && (s[i] == 32 || (s[i] >= 9 && s[i] <= 13))
        invariant
            i <= slen,
            slen == s@.len(),
            skip_ws(s@, 0) == skip_ws(s@, i as int),
        decreases slen - i,
    {
        i = i + 1;
    }
    if i >= slen || s[i] != 91 {
        return Err(());
    }
    i = i + 1;

    let mut out: Vec<Vec<u8>> = Vec::new();
    let ghost mut acc: Seq<Seq<u8>> = Seq::empty();

    loop
        invariant
            1 <= i <= slen,
            slen == s@.len(),
            acc.len() == out@.len(),
            forall|k: int| 0 <= k < out@.len() ==> (#[trigger] out@[k])@ == acc[k],
            spec_parse_json_strings(s@) == parse_items(s@, i as int, acc),
        decreases slen + 1 - i,
    {
        let ghost i0 = i as int;
        while i < slen && (s[i] == 32 || (s[i] >= 9 && s[i] <= 13) || s[i] == 44)
            invariant
                i0 <= i <= slen,
                slen == s@.len(),
                skip_seps(s@, i0) == skip_seps(s@, i as int),
            decreases slen - i,
        {
            i = i + 1;
        }
        proof {
            assert(skip_seps(s@, i0) == i as int);
        }
        if i < slen && s[i] == 93 {
            return Ok(out);
        }
        if i >= slen || s[i] != 34 {
            return Err(());
        }
        let ghost j = i as int;
        i = i + 1;

        let mut buf: Vec<u8> = Vec::new();
        let mut closed = false;
        proof {
            assert(buf@ + scan_string(s@, i as int).0 =~= scan_string(s@, j + 1).0);
        }
        while i < slen && !closed
            invariant
                j + 1 <= i <= slen,
                slen == s@.len(),
                !closed ==> scan_string(s@, j + 1) == (
                    buf@ + scan_string(s@, i as int).0,
                    scan_string(s@, i as int).1,
                ),
                closed ==> scan_string(s@, j + 1) == (buf@, i as int),
            decreases slen - i,
        {
            let c = s[i];
            let ghost bufpre = buf@;
            let ghost ipre = i as int;
            if c == 34 {
                i = i + 1;
                closed = true;
                proof {
                    assert(bufpre + scan_string(s@, ipre).0 =~= bufpre);
                }
            } else if c == 92 {
                if i + 1 < slen {
                    buf.push(s[i + 1]);
                    i = i + 2;
                    proof {
                        assert(buf@ + scan_string(s@, i as int).0 =~= bufpre + scan_string(
                            s@,
                            ipre,
                        ).0);
                    }
                } else {
                    i = i + 1;
                    proof {
                        assert(bufpre + scan_string(s@, ipre).0 =~= bufpre);
                    }
                }
            } else {
                buf.push(c);
                i = i + 1;
                proof {
                    assert(buf@ + scan_string(s@, i as int).0 =~= bufpre + scan_string(
                        s@,
                        ipre,
                    ).0);
                }
            }
        }
        proof {
            if !closed {
                assert(scan_string(s@, i as int).0 =~= Seq::<u8>::empty());
                assert(buf@ + Seq::<u8>::empty() =~= buf@);
            }
            assert(scan_string(s@, j + 1).0 == buf@);
        }
        out.push(buf);
        proof {
            acc = acc.push(buf@);
        }
    }
}

/// One byte of two 32-byte limbs combined by a left byte-shift of the
/// high limb: `lo[i] | hi[i + shift]`, the high limb read as zero past
/// its end.
pub open spec fn or_shift_byte(lo: Seq<u8>, hi: Seq<u8>, shift: int, i: int) -> u8 {
    lo[i] | (if i + shift < 32 {
        hi[i + shift]
    } else {
        0u8
    })
}

/// Combines a low and a byte-shifted high limb into one 32-byte value.
pub fn or_with_left_shift_bytes(lo: &[u8; 32], hi: &[u8; 32], shift_bytes: usize) -> (r: [u8; 32])
    ensures
        forall|i: int| 0 <= i < 32 ==> r@[i] == or_shift_byte(lo@, hi@, shift_bytes as int, i),
{
    let mut out: [u8; 32] = [0u8; 32];
    let mut i: usize = 0;
    while i < 32
        invariant
            i <= 32,
            forall|j: int| 0 <= j < i ==> out@[j] == or_shift_byte(lo@, hi@, shift_bytes as int, j),
        decreases 32 - i,
    {
        let hi_byte: u8 = if shift_bytes < 32 && i < 32 - shift_bytes {
            hi[i + shift_bytes]
        } else {
            0
        };
        out[i] = lo[i] | hi_byte;
        i = i + 1;
    }
    out
}

/// Two 32-byte limbs combined with the high limb shifted left by `sh`
/// bytes.
pub open spec fn or_shift_seq(lo: Seq<u8>, hi: Seq<u8>, sh: int) -> Seq<u8> {
    Seq::new(32, |i: int| or_shift_byte(lo, hi, sh, i))
}

/// Whether any of the 32 bytes is nonzero.
pub open spec fn any_nonzero(s: Seq<u8>) -> bool {
    exists|i: int| 0 <= i < 32 && s[i] != 0
}

fn bytes32_any_nonzero(a: &[u8; 32]) -> (r: bool)
    ensures
        r == any_nonzero(a@),
{
    let mut i: usize = 0;
    while i < 32
        invariant
            i <= 32,
            forall|j: int| 0 <= j < i ==> a@[j] == 0,
        decreases 32 - i,
    {
        if a[i] != 0 {
            return true;
        }
        i = i + 1;
    }
    false
}

/// The coordinates recombined from four field limbs: the 136-bit split is
/// tried first, then the 128-bit split; a point whose bytes are all zero
/// under both splits is rejected.
pub open spec fn spec_read_g1_from_limbs(lx: Seq<u8>, hx: Seq<u8>, ly: Seq<u8>, hy: Seq<u8>) -> Option<
    (Seq<u8>, Seq<u8>),
> {
    let x17 = or_shift_seq(lx, hx, 17);
    let y17 = or_shift_seq(ly, hy, 17);
    if any_nonzero(x17) || any_nonzero(y17) {
        Some((x17, y17))
    } else {
        let x16 = or_shift_seq(lx, hx, 16);
        let y16 = or_shift_seq(ly, hy, 16);
        if any_nonzero(x16) || any_nonzero(y16) {
            Some((x16, y16))
        } else {
            None
        }
    }
}

/// Recombines four big-endian limbs into a curve point. The key is set by
/// a trusted administrator, so no on-curve check is made here; an invalid
/// point fails the later pairing check anyway.
pub fn read_g1_from_limbs(lx: &[u8; 32], hx: &[u8; 32], ly: &[u8; 32], hy: &[u8; 32]) -> (r:
    Option<G1Point>)
    ensures
        match r {
            Some(pt) => spec_read_g1_from_limbs(lx@, hx@, ly@, hy@) == Some((pt.x@, pt.y@)),
            None => spec_read_g1_from_limbs(lx@, hx@, ly@, hy@) is None,
        },
{
    let x17 = or_with_left_shift_bytes(lx, hx, 17);
    let y17 = or_with_left_shift_bytes(ly, hy, 17);
    proof {
        assert(x17@ =~= or_shift_seq(lx@, hx@, 17));
        assert(y17@ =~= or_shift_seq(ly@, hy@, 17));
    }
    if bytes32_any_nonzero(&x17) || bytes32_any_nonzero(&y17) {
        return Some(G1Point { x: x17, y: y17 });
    }
    let x16 = or_with_left_shift_bytes(lx, hx, 16);
    let y16 = or_with_left_shift_bytes(ly, hy, 16);
    proof {
        assert(x16@ =~= or_shift_seq(lx@, hx@, 16));
        assert(y16@ =~= or_shift_seq(ly@, hy@, 16));
    }
    if bytes32_any_nonzero(&x16) || bytes32_any_nonzero(&y16) {
        return Some(G1Point { x: x16, y: y16 });
    }
    None
}

/// One point read from four consecutive hex-string fields, with the
/// position just past them.
pub open spec fn spec_try_read_g1(fields: Seq<Seq<u8>>, i: int) -> Option<(
    (Seq<u8>, Seq<u8>),
    int,
)> {
    if i + 3 >= fields.len() {
        None
    } else {
        match spec_hex_str_to_be32(fields[i]) {
            None => None,
            Some(lx) => match spec_hex_str_to_be32(fields[i + 1]) {
                None => None,
                Some(hx) => match spec_hex_str_to_be32(fields[i + 2]) {
                    None => None,
                    Some(ly) => match spec_hex_str_to_be32(fields[i + 3]) {
                        None => None,
                        Some(hy) => match spec_read_g1_from_limbs(lx, hx, ly, hy) {
                            None => None,
                            Some(pt) => Some((pt, i + 4)),
                        },
                    },
                },
            },
        }
    }
}

/// The deep view of a field list: each hex string as its byte sequence.
pub open spec fn fields_view(v: Seq<Vec<u8>>) -> Seq<Seq<u8>> {
    Seq::new(v.len() as nat, |k: int| v[k]@)
}

/// Reads one curve point from four consecutive hex-string fields.
pub fn try_read_g1(vk_fields: &Vec<Vec<u8>>, i: usize) -> (r: Option<(G1Point, usize)>)
    ensures
        match r {
            Some(pr) => spec_try_read_g1(fields_view(vk_fields@), i as int) == Some(
                ((pr.0.x@, pr.0.y@), pr.1 as int),
            ),
            None => spec_try_read_g1(fields_view(vk_fields@), i as int) is None,
        },
{
    if i as u128 + 3 >= vk_fields.len() as u128 {
        return None;
    }
    let lx = match hex_str_to_be32(vk_fields[i].as_slice()) {
        Some(v) => v,
        None => { return None },
    };
    let hx = match hex_str_to_be32(vk_fields[i + 1].as_slice()) {
        Some(v) => v,
        None => { return None },
    };
    let ly = match hex_str_to_be32(vk_fields[i + 2].as_slice()) {
        Some(v) => v,
        None => { return None },
    };
    let hy = match hex_str_to_be32(vk_fields[i + 3].as_slice()) {
        Some(v) => v,
        None => { return None },
    };
    match read_g1_from_limbs(&lx, &hx, &ly, &hy) {
        Some(pt) => Some((pt, i + 4)),
        None => None,
    }
}

/// Whether `count` consecutive points can be read starting at `idx`, and
/// where the reads end.
pub open spec fn reads_g1_chain(fields: Seq<Seq<u8>>, idx: int, count: int) -> Option<int>
    decreases count,
{
    if count <= 0 {
        Some(idx)
    } else {
        match spec_try_read_g1(fields, idx) {
            None => None,
            Some(pr) => reads_g1_chain(fields, pr.1, count - 1),
        }
    }
}

/// The field position of the `k`-th point in a read chain.
pub open spec fn chain_idx(fields: Seq<Seq<u8>>, idx: int, k: int) -> Option<int>
    decreases k,
{
    if k <= 0 {
        Some(idx)
    } else {
        match spec_try_read_g1(fields, idx) {
            None => None,
            Some(pr) => chain_idx(fields, pr.1, k - 1),
        }
    }
}

/// The `k`-th point of a read chain.
pub open spec fn nth_g1(fields: Seq<Seq<u8>>, idx: int, k: int) -> (Seq<u8>, Seq<u8>) {
    (spec_try_read_g1(fields, chain_idx(fields, idx, k)->0)->0).0
}

/// A successful chain extended by one more successful read stays a chain.
proof fn lemma_chain_extend(fields: Seq<Seq<u8>>, idx0: int, k: int, idxk: int)
    requires
        k >= 0,
        chain_idx(fields, idx0, k) == Some(idxk),
        spec_try_read_g1(fields, idxk) is Some,
    ensures
        chain_idx(fields, idx0, k + 1) == Some((spec_try_read_g1(fields, idxk)->0).1),
    decreases k,
{
    let pr = spec_try_read_g1(fields, idx0);
    if k == 0 {
        assert(idxk == idx0);
        assert(chain_idx(fields, idx0, 1) == chain_idx(fields, (pr->0).1, 0));
    } else {
        assert(chain_idx(fields, idx0, k) == chain_idx(fields, (pr->0).1, k - 1));
        lemma_chain_extend(fields, (pr->0).1, k - 1, idxk);
        assert(chain_idx(fields, idx0, k + 1) == chain_idx(fields, (pr->0).1, k));
    }
}

/// The first position in `[start, end)` from which 27 consecutive points
/// can be read; the scan stops at the first position that leaves fewer
/// than 108 fields.
pub open spec fn spec_find_g1(fields: Seq<Seq<u8>>, i: int, end: int) -> Option<int>
    decreases end - i,
{
    if i >= end {
        None
    } else if i + 108 > fields.len() {
        None
    } else if reads_g1_chain(fields, i, 27) is Some {
        Some(i)
    } else {
        spec_find_g1(fields, i + 1, end)
    }
}

/// The probe window of the point scan.
pub open spec fn probe_end(fields_len: int, start: int, max_probe: int) -> int {
    if fields_len <= start + max_probe {
        fields_len
    } else {
        start + max_probe
    }
}

/// Scans for the first field position from which a full block of 27
/// curve points parses.
pub fn find_first_g1_start(vk_fields: &Vec<Vec<u8>>, start_guess: usize, max_probe: usize) -> (r:
    Option<usize>)
    ensures
        ({
            let sp = spec_find_g1(
                fields_view(vk_fields@),
                start_guess as int,
                probe_end(vk_fields@.len() as int, start_guess as int, max_probe as int),
            );
            match r {
                Some(v) => sp == Some(v as int),
                None => sp is None,
            }
        }),
{
    let ghost fields = fields_view(vk_fields@);
    let len = vk_fields.len();
    let end: usize = if (len as u128) <= (start_guess as u128) + (max_probe as u128) {
        len
    } else {
        start_guess + max_probe
    };
    let ghost gend = end as int;
    proof {
        assert(gend == probe_end(vk_fields@.len() as int, start_guess as int, max_probe as int));
    }
    let mut i: usize = start_guess;
    while i < end
        invariant
            start_guess <= i,
            i <= end || start_guess >= end,
            end <= vk_fields@.len(),
            gend == end as int,
            gend == probe_end(vk_fields@.len() as int, start_guess as int, max_probe as int),
            len == vk_fields@.len(),
            fields == fields_view(vk_fields@),
            fields.len() == len,
            spec_find_g1(fields, start_guess as int, gend) == spec_find_g1(fields, i as int, gend),
        decreases gend - i,
    {
        if (i as u128) + 108 > (len as u128) {
            proof {
                assert(spec_find_g1(fields, i as int, gend) is None);
            }
            return None;
        }
        let mut idx: usize = i;
        let mut t: usize = 0;
        let mut ok = true;
        while t < 27 && ok
            invariant
                t <= 27,
                fields == fields_view(vk_fields@),
                ok ==> reads_g1_chain(fields, i as int, 27) == reads_g1_chain(
                    fields,
                    idx as int,
                    27 - t,
                ),
                !ok ==> reads_g1_chain(fields, i as int, 27) is None,
            decreases 27 - t,
        {
            match try_read_g1(vk_fields, idx) {
                Some(pr) => {
                    idx = pr.1;
                },
                None => {
                    ok = false;
                },
            }
            t = t + 1;
        }
        if ok {
            proof {
                assert(spec_find_g1(fields, i as int, gend) == Some(i as int));
            }
            return Some(i);
        }
        proof {
            assert(spec_find_g1(fields, i as int, gend) == spec_find_g1(fields, i + 1, gend));
        }
        i = i + 1;
    }
    proof {
        assert(spec_find_g1(fields, i as int, gend) is None);
    }
    None
}

/// The floor base-2 logarithm, by repeated halving.
pub open spec fn log2_rec(n: u64) -> int
    decreases n,
{
    if n <= 1 {
        0
    } else {
        1 + log2_rec((n / 2) as u64)
    }
}

proof fn lemma_log2_bounds(n: u64)
    ensures
        0 <= log2_rec(n) <= n,
    decreases n,
{
    if n > 1 {
        lemma_log2_bounds((n / 2) as u64);
    }
}

/// The circuit size and its logarithm derived from the key's first field:
/// a power of two is taken as the size itself, any other value as the
/// logarithm, failing when a shift by it would leave `u64`.
pub open spec fn spec_circuit_dims(h0: u64) -> Option<(u64, int)> {
    if h0 != 0 && (h0 & ((h0 - 1) as u64)) == 0 {
        Some((h0, log2_rec(h0)))
    } else if (h0 as u32) < 64 {
        Some(((1u64 << ((h0 as u32) as u64)) as u64, h0 as int))
    } else {
        None
    }
}

/// Whether loading a verification key from these bytes fails: the JSON
/// array does not parse, holds too few fields, announces an unusable
/// circuit size, or holds no block of 27 curve points.
pub open spec fn load_vk_fails(s: Seq<u8>) -> bool {
    match spec_parse_json_strings(s) {
        None => true,
        Some(fields) => {
            ||| fields.len() < 7
            ||| spec_circuit_dims(spec_parse_u64_hex_lsb(fields[0])) is None
            ||| spec_find_g1(fields, 3, probe_end(fields.len() as int, 3, 64)) is None
        },
    }
}

/// The `m`-th commitment point of a key, in the order the export format
/// lists them.
pub open spec fn vk_point(vk: VerificationKey, m: int) -> G1Point {
    if m == 0 {
        vk.qm
    } else if m == 1 {
        vk.qc
    } else if m == 2 {
        vk.ql
    } else if m == 3 {
        vk.qr
    } else if m == 4 {
        vk.qo
    } else if m == 5 {
        vk.q4
    } else if m == 6 {
        vk.q_lookup
    } else if m == 7 {
        vk.q_arith
    } else if m == 8 {
        vk.q_delta_range
    } else if m == 9 {
        vk.q_elliptic
    } else if m == 10 {
        vk.q_aux
    } else if m == 11 {
        vk.q_poseidon2_external
    } else if m == 12 {
        vk.q_poseidon2_internal
    } else if m == 13 {
        vk.s1
    } else if m == 14 {
        vk.s2
    } else if m == 15 {
        vk.s3
    } else if m == 16 {
        vk.s4
    } else if m == 17 {
        vk.id1
    } else if m == 18 {
        vk.id2
    } else if m == 19 {
        vk.id3
    } else if m == 20 {
        vk.id4
    } else if m == 21 {
        vk.t1
    } else if m == 22 {
        vk.t2
    } else if m == 23 {
        vk.t3
    } else if m == 24 {
        vk.t4
    } else if m == 25 {
        vk.lagrange_first
    } else {
        vk.lagrange_last
    }
}

/// What a successfully loaded key holds: the dimensions from the first
/// two fields and the 27 points of the first well-formed point block.
pub open spec fn vk_matches(vk: VerificationKey, s: Seq<u8>) -> bool {
    let fields = spec_parse_json_strings(s)->0;
    let dims = spec_circuit_dims(spec_parse_u64_hex_lsb(fields[0]))->0;
    let idx = spec_find_g1(fields, 3, probe_end(fields.len() as int, 3, 64))->0;
    &&& vk.circuit_size == dims.0
    &&& vk.log_circuit_size == dims.1
    &&& vk.public_inputs_size == spec_parse_u64_hex_lsb(fields[1])
    &&& forall|m: int|
        0 <= m < 27 ==> ((#[trigger] vk_point(vk, m)).x@ == nth_g1(fields, idx, m).0 && vk_point(
            vk,
            m,
        ).y@ == nth_g1(fields, idx, m).1)
}

/// A position found by the scan really starts a block of 27 points.
proof fn lemma_find_reads(fields: Seq<Seq<u8>>, i: int, end: int)
    requires
        spec_find_g1(fields, i, end) is Some,
    ensures
        reads_g1_chain(fields, spec_find_g1(fields, i, end)->0, 27) is Some,
    decreases end - i,
{
    if i < end && i + 108 <= fields.len() && !(reads_g1_chain(fields, i, 27) is Some) {
        lemma_find_reads(fields, i + 1, end);
    }
}

/// Loads a verification key from a JSON array of hex-string fields: the
/// circuit dimensions from the header fields, then 27 commitment points
/// from the first well-formed point block.
pub fn load_vk_from_json_fields(json_data: &[u8]) -> (r: Result<VerificationKey, ()>)
    ensures
        r is Err <==> load_vk_fails(json_data@),
        r matches Ok(vk) ==> vk_matches(vk, json_data@),
{
    let vk_fields: Vec<Vec<u8>> = match parse_json_array_of_strings(json_data) {
        Ok(v) => v,
        Err(_) => { return Err(()) },
    };
    let ghost fields = spec_parse_json_strings(json_data@)->0;
    proof {
        assert(fields =~= fields_view(vk_fields@));
    }
    if vk_fields.len() < 7 {
        return Err(());
    }

    let h0 = parse_u64_hex_lsb(vk_fields[0].as_slice());
    let public_inputs_size = parse_u64_hex_lsb(vk_fields[1].as_slice());

    let circuit_size: u64;
    let log_circuit_size: u64;
    if h0 != 0 && (h0 & (h0 - 1)) == 0 {
        let mut lg: u64 = 0;
        let mut n: u64 = h0;
        proof {
            lemma_log2_bounds(h0);
        }
        while n > 1
            invariant
                n >= 1,
                h0 != 0,
                0 <= lg,
                log2_rec(h0) == lg + log2_rec(n),
            decreases n,
        {
            proof {
                lemma_log2_bounds(h0);
                lemma_log2_bounds(n);
                lemma_log2_bounds((n / 2) as u64);
            }
            proof {
                assert(n >> 1u64 == n / 2) by (bit_vector);
            }
            n = n >> 1;
            lg = lg + 1;
        }
        circuit_size = h0;
        log_circuit_size = lg;
    } else {
        let sh: u32 = #[verifier::truncate] (h0 as u32);
        if sh >= 64 {
            return Err(());
        }
        circuit_size = 1u64 << sh;
        log_circuit_size = h0;
    }

    let idx0: usize = match find_first_g1_start(&vk_fields, 3, 64) {
        Some(v) => v,
        None => { return Err(()) },
    };
    proof {
        lemma_find_reads(fields, 3, probe_end(fields.len() as int, 3, 64));
    }

    let mut pts: Vec<G1Point> = Vec::new();
    let mut idx: usize = idx0;
    let mut k: usize = 0;
    while k < 27
        invariant
            k <= 27,
            pts@.len() == k,
            fields == fields_view(vk_fields@),
            chain_idx(fields, idx0 as int, k as int) == Some(idx as int),
            reads_g1_chain(fields, idx as int, 27 - k as int) is Some,
            forall|m: int|
                0 <= m < k ==> ((#[trigger] pts@[m]).x@ == nth_g1(fields, idx0 as int, m).0
                    && pts@[m].y@ == nth_g1(fields, idx0 as int, m).1),
        decreases 27 - k,
    {
        let ghost idxpre = idx as int;
        match try_read_g1(&vk_fields, idx) {
            Some(pr) => {
                proof {
                    lemma_chain_extend(fields, idx0 as int, k as int, idxpre);
                    assert(reads_g1_chain(fields, idxpre, 27 - k as int) == reads_g1_chain(
                        fields,
                        pr.1 as int,
                        27 - k as int - 1,
                    ));
                }
                pts.push(pr.0);
                idx = pr.1;
            },
            None => {
                proof {
                    assert(false);
                }
                return Err(());
            },
        }
        k = k + 1;
    }

    let vk = VerificationKey {
        circuit_size,
        log_circuit_size,
        public_inputs_size,
        qm: pts[0],
        qc: pts[1],
        ql: pts[2],
        qr: pts[3],
        qo: pts[4],
        q4: pts[5],
        q_lookup: pts[6],
        q_arith: pts[7],
        q_delta_range: pts[8],
        q_elliptic: pts[9],
        q_aux: pts[10],
        q_poseidon2_external: pts[11],
        q_poseidon2_internal: pts[12],
        s1: pts[13],
        s2: pts[14],
        s3: pts[15],
        s4: pts[16],
        id1: pts[17],
        id2: pts[18],
        id3: pts[19],
        id4: pts[20],
        t1: pts[21],
        t2: pts[22],
        t3: pts[23],
        t4: pts[24],
        lagrange_first: pts[25],
        lagrange_last: pts[26],
    };
    proof {
        assert forall|m: int| 0 <= m < 27 implies vk_point(vk, m) == pts@[m] by {}
    }
    Ok(vk)
}

} // verus!
