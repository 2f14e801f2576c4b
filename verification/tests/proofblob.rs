use heist::proofblob::{
    parse_and_validate_proof_blob, verify_packed_proof, ProofBlobError, VerifyCoreError,
};

fn make_blob(total_fields: usize) -> Vec<u8> {
    let total_bytes = 4 + total_fields * 32;
    let mut raw = vec![0u8; total_bytes];
    raw[0] = ((total_fields >> 24) & 0xff) as u8;
    raw[1] = ((total_fields >> 16) & 0xff) as u8;
    raw[2] = ((total_fields >> 8) & 0xff) as u8;
    raw[3] = (total_fields & 0xff) as u8;
    raw
}

#[test]
fn accepts_456_field_proof_with_one_public_input() {
    let blob = make_blob(457);
    let parsed = parse_and_validate_proof_blob(&blob, 1).expect("must be valid");
    assert_eq!(parsed.proof_fields, 456);
}

#[test]
fn rejects_unknown_proof_field_count() {
    let blob = make_blob(430);
    let err = parse_and_validate_proof_blob(&blob, 1).expect_err("must fail");
    assert_eq!(err, ProofBlobError::UnexpectedFieldCount);
}

#[test]
fn rejects_length_mismatch() {
    let mut raw = vec![0u8; 32];
    raw[0] = 0;
    raw[1] = 0;
    raw[2] = 1;
    raw[3] = 201;
    let err = parse_and_validate_proof_blob(&raw, 1).expect_err("must fail");
    assert_eq!(err, ProofBlobError::LengthMismatch);
}

#[test]
fn rejects_too_short_header() {
    let raw = vec![0u8; 3];
    let err = parse_and_validate_proof_blob(&raw, 1).expect_err("must fail");
    assert_eq!(err, ProofBlobError::TooShort);
}

#[test]
fn accepts_other_supported_field_counts() {
    for proof_fields in [424usize, 440, 456] {
        let blob = make_blob(proof_fields + 1);
        let parsed = parse_and_validate_proof_blob(&blob, 1).expect("must be valid");
        assert_eq!(parsed.proof_fields, proof_fields);
        assert_eq!(parsed.total_fields, proof_fields + 1);
        assert_eq!(parsed.public_input_fields, 1);
        assert_eq!(parsed.blob_len, blob.len());
    }
}

#[test]
fn packed_proof_maps_framing_errors() {
    let vk = vec![0u8; 4];
    let good = make_blob(425);
    assert_eq!(verify_packed_proof(&vk, &good, 1), Ok(()));
    let bad = make_blob(430);
    assert_eq!(
        verify_packed_proof(&vk, &bad, 1),
        Err(VerifyCoreError::InvalidProofBlob(ProofBlobError::UnexpectedFieldCount))
    );
}
