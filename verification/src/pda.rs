//! Derivation of a record's storage address from its content hash.
//!
//! The address is a pure function of a fixed namespace tag and the content
//! hash, computed under the registry program's own identity. Allocation at
//! that address is the registry's sole duplicate-prevention gate, and
//! recomputing it is the only lookup path.

use vstd::prelude::*;

verus! {

/// What `solana_pubkey::Pubkey::try_find_program_address` returns for the
/// seeds `["model", h]` under the registry program's identity: the derived
/// record address (32 bytes) and its bump seed, or nothing in the
/// statistically improbable event that no bump seed is viable. The result is
/// a pure function of the content hash alone.
pub uninterp spec fn derived_address(h: Seq<u8>) -> Option<(Seq<u8>, u8)>;

/// Relies on `solana_pubkey::Pubkey::try_find_program_address`: off the
/// ledger it computes the address by hashing the seeds with the program id,
/// so the result is deterministic, a function of its arguments alone, and
/// the seeds and the program id are fixed here but for the content hash.
#[verifier::external_body]
pub(crate) fn derive_record_address(model_hash: &[u8; 32]) -> (r: Option<([u8; 32], u8)>)
    ensures
        match r {
            Some(ab) => derived_address(model_hash@) == Some((ab.0@, ab.1)),
            None => derived_address(model_hash@) is None,
        },
{
    let program_id = solana_pubkey::Pubkey::new_from_array([
        8, 79, 194, 107, 43, 100, 24, 185, 56, 146, 187, 190, 131, 231, 46, 35, 185, 79, 56, 68,
        170, 105, 80, 116, 204, 62, 96, 219, 235, 62, 167, 232,
    ]);
    let seeds: [&[u8]; 2] = [b"model", model_hash];
    solana_pubkey::Pubkey::try_find_program_address(&seeds, &program_id)
        .map(|ab| (ab.0.to_bytes(), ab.1))
}

} // verus!
