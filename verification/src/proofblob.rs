//! Framing of the self-describing proof blob handed to the verifier:
//! a 4-byte big-endian field count, the public-input field elements, then
//! the proof field elements, each 32 bytes wide.

use vstd::prelude::*;

verus! {

/// Width of one field element in bytes.
pub const FIELD_SIZE_BYTES: usize = 32;

/// Width of the leading field-count header in bytes.
pub const PROOF_BLOB_HEADER_BYTES: usize = 4;

/// Rejections of a malformed proof blob.
#[derive(Clone, Copy, Debug, Eq, PartialEq, Structural)]
pub enum ProofBlobError {
    TooShort,
    UnexpectedFieldCount,
    LengthMismatch,
}

/// The accepted framing of a proof blob.
#[derive(Clone, Copy, Debug, Eq, PartialEq, Structural)]
pub struct ParsedProofBlob {
    /// Number of 32-byte field elements in the full blob (public + proof).
    pub total_fields: usize,
    /// Number of proof field elements only.
    pub proof_fields: usize,
    /// Number of public input field elements.
    pub public_input_fields: usize,
    /// Full proof blob length in bytes.
    pub blob_len: usize,
}

/// Rejections of the packed-proof verification entry point.
#[derive(Clone, Copy, Debug, Eq, PartialEq, Structural)]
pub enum VerifyCoreError {
    InvalidProofBlob(ProofBlobError),
    VkUtf8,
    VkParse,
    VerificationFailed,
}

/// The field count announced by a blob's 4-byte big-endian header.
pub open spec fn blob_header(b: Seq<u8>) -> int
    recommends
        b.len() >= 4,
{
    b[0] * 0x1000000 + b[1] * 0x10000 + b[2] * 0x100 + b[3]
}

/// The proof field counts this framing accepts; the list is explicit so
/// that malformed formats are never accepted silently.
pub open spec fn supported_field_count(n: int) -> bool {
    n == 424 || n == 440 || n == 456
}

/// The exact framing decision for a blob and an expected public-input
/// count.
pub open spec fn spec_parse_blob(b: Seq<u8>, expected: usize) -> Result<
    ParsedProofBlob,
    ProofBlobError,
> {
    if b.len() < 4 {
        Err(ProofBlobError::TooShort)
    } else {
        let total = blob_header(b);
        if total < expected {
            Err(ProofBlobError::UnexpectedFieldCount)
        } else if !supported_field_count(total - expected) {
            Err(ProofBlobError::UnexpectedFieldCount)
        } else if b.len() != 4 + total * 32 {
            Err(ProofBlobError::LengthMismatch)
        } else {
            Ok(
                ParsedProofBlob {
                    total_fields: total as usize,
                    proof_fields: (total - expected) as usize,
                    public_input_fields: expected,
                    blob_len: b.len() as usize,
                },
            )
        }
    }
}

/// Reads the 4-byte big-endian total-field-count header.
pub fn decode_total_fields_header(proof_blob: &Vec<u8>) -> (r: Result<usize, ProofBlobError>)
    ensures
        proof_blob@.len() < 4 ==> r == Err::<usize, ProofBlobError>(ProofBlobError::TooShort),
        proof_blob@.len() >= 4 ==> r is Ok && r->Ok_0 == blob_header(proof_blob@),
{
    if proof_blob.len() < 4 {
        return Err(ProofBlobError::TooShort);
    }
    let b0 = proof_blob[0] as u64;
    let b1 = proof_blob[1] as u64;
    let b2 = proof_blob[2] as u64;
    let b3 = proof_blob[3] as u64;
    let total: u64 = b0 * 0x1000000 + b1 * 0x10000 + b2 * 0x100 + b3;
    Ok(total as usize)
}

/// Validates the packed proof blob framing:
/// a 4-byte big-endian total field count, `expected_public_inputs` public
/// input fields, then a supported number of proof fields, with the blob
/// length agreeing exactly.
pub fn parse_and_validate_proof_blob(
    proof_blob: &Vec<u8>,
    expected_public_inputs: usize,
) -> (r: Result<ParsedProofBlob, ProofBlobError>)
    ensures
        r == spec_parse_blob(proof_blob@, expected_public_inputs),
{
    let len = proof_blob.len();
    let total: usize = match decode_total_fields_header(proof_blob) {
        Ok(t) => t,
        Err(e) => { return Err(e) },
    };

    if total < expected_public_inputs {
        return Err(ProofBlobError::UnexpectedFieldCount);
    }
    let proof_fields = total - expected_public_inputs;
    if !(proof_fields == 424 || proof_fields == 440 || proof_fields == 456) {
        return Err(ProofBlobError::UnexpectedFieldCount);
    }

    let expected_len: u64 = 4 + (total as u64) * 32;
    if len as u64 != expected_len {
        return Err(ProofBlobError::LengthMismatch);
    }

    Ok(
        ParsedProofBlob {
            total_fields: total,
            proof_fields,
            public_input_fields: expected_public_inputs,
            blob_len: len,
        },
    )
}

/// Validates a packed proof's framing; the cryptographic check itself is
/// the external verifier's, so a well-framed blob passes here.
pub fn verify_packed_proof(
    _vk_json: &Vec<u8>,
    proof_blob: &Vec<u8>,
    expected_public_inputs: usize,
) -> (r: Result<(), VerifyCoreError>)
    ensures
        spec_parse_blob(proof_blob@, expected_public_inputs) is Ok ==> r == Ok::<
            (),
            VerifyCoreError,
        >(()),
        spec_parse_blob(proof_blob@, expected_public_inputs) matches Err(e) ==> r == Err::<
            (),
            VerifyCoreError,
        >(VerifyCoreError::InvalidProofBlob(e)),
{
    match parse_and_validate_proof_blob(proof_blob, expected_public_inputs) {
        Ok(_) => Ok(()),
        Err(e) => Err(VerifyCoreError::InvalidProofBlob(e)),
    }
}

} // verus!
