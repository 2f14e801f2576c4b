use heist::groth16::{read_u32_be, ZkVerifierContract};
use heist::vk::{
    find_first_g1_start, hex_str_to_be32, hex_val, load_vk_from_json_fields,
    parse_json_array_of_strings, parse_u64_hex_lsb,
};
use soroban_sdk::testutils::EnvTestConfig;
use soroban_sdk::Env;

fn test_env() -> Env {
    Env::new_with_config(EnvTestConfig { capture_snapshot_at_drop: false })
}

#[test]
fn hex_digits_decode() {
    assert_eq!(hex_val(b'0'), Some(0));
    assert_eq!(hex_val(b'9'), Some(9));
    assert_eq!(hex_val(b'a'), Some(10));
    assert_eq!(hex_val(b'f'), Some(15));
    assert_eq!(hex_val(b'A'), Some(10));
    assert_eq!(hex_val(b'F'), Some(15));
    assert_eq!(hex_val(b'g'), None);
    assert_eq!(hex_val(b' '), None);
}

#[test]
fn u64_hex_tail_parses() {
    assert_eq!(parse_u64_hex_lsb(b"0x20"), 0x20);
    assert_eq!(parse_u64_hex_lsb(b"20"), 0x20);
    assert_eq!(parse_u64_hex_lsb(b"0x0000000000000001"), 1);
    assert_eq!(parse_u64_hex_lsb(b""), 0);
    // Longer strings keep only the last sixteen digits.
    assert_eq!(parse_u64_hex_lsb(b"0xff0000000000000001"), 1);
    assert_eq!(parse_u64_hex_lsb(b"0xdeadbeef"), 0xdeadbeef);
}

#[test]
fn hex_strings_become_be32() {
    let v = hex_str_to_be32(b"0x01").unwrap();
    assert_eq!(v[31], 1);
    assert_eq!(v[30], 0);
    let v = hex_str_to_be32(b"0x0102").unwrap();
    assert_eq!(v[31], 2);
    assert_eq!(v[30], 1);
    let v = hex_str_to_be32(b"abc").unwrap();
    assert_eq!(v[31], 0xbc);
    assert_eq!(v[30], 0x0a);
    assert!(hex_str_to_be32(b"0xzz").is_none());
}

#[test]
fn json_string_arrays_parse() {
    let fields = parse_json_array_of_strings(b" [ \"ab\", \"cd\" , \"\" ] ").unwrap();
    assert_eq!(fields.len(), 3);
    assert_eq!(fields[0], b"ab".to_vec());
    assert_eq!(fields[1], b"cd".to_vec());
    assert_eq!(fields[2], Vec::<u8>::new());
    // An escaped quote stays inside the string.
    let fields = parse_json_array_of_strings(b"[\"a\\\"b\"]").unwrap();
    assert_eq!(fields[0], b"a\"b".to_vec());
    assert!(parse_json_array_of_strings(b"{\"a\": 1}").is_err());
    assert!(parse_json_array_of_strings(b"[1, 2]").is_err());
    assert!(parse_json_array_of_strings(b"[\"a\"").is_err());
}

fn sample_vk_json() -> Vec<u8> {
    // Header: circuit size 32 (a power of two), one public input, a filler
    // field, then 27 points of four limbs each.
    let mut json = String::from("[\"0x20\",\"0x01\",\"0x00\"");
    for _ in 0..27 {
        json.push_str(",\"0x01\",\"0x00\",\"0x02\",\"0x00\"");
    }
    json.push(']');
    json.into_bytes()
}

#[test]
fn vk_loads_from_json_fields() {
    let json = sample_vk_json();
    let vk = load_vk_from_json_fields(&json).unwrap();
    assert_eq!(vk.circuit_size, 32);
    assert_eq!(vk.log_circuit_size, 5);
    assert_eq!(vk.public_inputs_size, 1);
    assert_eq!(vk.qm.x[31], 1);
    assert_eq!(vk.qm.y[31], 2);
    assert_eq!(vk.lagrange_last.x[31], 1);
    assert_eq!(vk.lagrange_last.y[31], 2);
}

#[test]
fn vk_point_scan_finds_first_block() {
    let json = sample_vk_json();
    let fields = parse_json_array_of_strings(&json).unwrap();
    assert_eq!(find_first_g1_start(&fields, 3, 64), Some(3));
    // Too few fields leave nothing to find.
    let short = parse_json_array_of_strings(b"[\"0x20\",\"0x01\",\"0x00\"]").unwrap();
    assert_eq!(find_first_g1_start(&short, 3, 64), None);
}

#[test]
fn vk_load_rejects_bad_inputs() {
    assert!(load_vk_from_json_fields(b"not json").is_err());
    assert!(load_vk_from_json_fields(b"[\"0x20\",\"0x01\"]").is_err());
    // A log-circuit-size of 64 or more cannot be shifted into a u64.
    let mut json = String::from("[\"0x41\",\"0x01\",\"0x00\"");
    for _ in 0..27 {
        json.push_str(",\"0x01\",\"0x00\",\"0x02\",\"0x00\"");
    }
    json.push(']');
    assert!(load_vk_from_json_fields(json.as_bytes()).is_err());
}

#[test]
fn u32_reads_pad_with_zero() {
    let blob = vec![0u8, 0, 1, 201];
    assert_eq!(read_u32_be(&blob, 0), 457);
    assert_eq!(read_u32_be(&blob, 2), (1 << 24) | (201 << 16));
    assert_eq!(read_u32_be(&blob, 100), 0);
}

#[test]
fn groth16_rejects_bad_framing() {
    let env = test_env();
    // A key shorter than the fixed 452-byte header cannot verify anything.
    let vk = vec![0u8; 100];
    let blob = vec![0u8; 300];
    assert_eq!(ZkVerifierContract::verify_groth16(&env, &vk, &blob), None);
    assert_eq!(ZkVerifierContract::verify_proof_with_stored_vk(&env, &vk, &blob), None);
    // A key announcing more IC points than it carries is rejected.
    let mut vk = vec![0u8; 452];
    vk[451] = 2;
    let blob = vec![0u8; 300];
    assert_eq!(ZkVerifierContract::verify_groth16(&env, &vk, &blob), None);
}

#[test]
fn vk_hash_matches_sha256() {
    let env = test_env();
    let vk = b"vk-test".to_vec();
    let h1 = ZkVerifierContract::vk_hash(&env, &vk);
    let h2 = ZkVerifierContract::vk_hash(&env, &vk);
    assert_eq!(h1, h2);
    assert_ne!(h1, [0u8; 32]);
    assert_ne!(h1, ZkVerifierContract::vk_hash(&env, &b"turn-public".to_vec()));
}

#[test]
fn groth16_accepts_degenerate_infinity_instance() {
    // A key of one all-zero IC point and all-infinity proof points is
    // well-framed and every group element is the identity, so the pairing
    // product is one and the check accepts, returning the embedded
    // public-input bytes.
    let env = test_env();
    let mut vk = vec![0u8; 452 + 64];
    vk[451] = 1;
    let blob = vec![0u8; 4 + 64 + 128 + 64];
    let got = ZkVerifierContract::verify_groth16(&env, &vk, &blob).expect("must accept");
    assert_eq!(got, [0u8; 32]);
    let id = ZkVerifierContract::verify_proof_with_stored_vk(&env, &vk, &blob).expect("must accept");
    assert_ne!(id, [0u8; 32]);
}
