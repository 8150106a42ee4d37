//! The registry's data: one listing record per distinct content hash, the
//! operation requests, and the append-only event payloads.

use vstd::prelude::*;
use crate::errors::ErrorCode;

verus! {

/// One listed artifact. Created exactly once, mutated only by the rental
/// operation (its `times_rented` counter), and never deleted.
pub struct ModelAccount {
    /// Account entitled to receive rental payments. Immutable after creation.
    pub uploader: [u8; 32],
    /// Content identity of the artifact; also the allocation key.
    pub model_hash: [u8; 32],
    /// Optional integrity commitment (e.g. a Merkle root), reserved for
    /// future proof verification.
    pub merkle_root: [u8; 32],
    /// Whether `merkle_root` is meaningful. Creation always sets it.
    pub merkle_present: bool,
    /// Off-ledger pointer to the artifact, at most 200 characters.
    pub storage_uri: String,
    /// Cost per rental in the ledger's smallest currency unit. Immutable
    /// after creation.
    pub price_lamports: u64,
    /// Wall-clock time of creation, supplied by the caller's environment.
    pub timestamp: i64,
    /// Whether the record currently accepts rentals.
    pub is_available: bool,
    /// Proof of the record address derivation: the bump seed found beside
    /// the address. Required for later lookups.
    pub bump: u8,
    /// Number of completed rentals. Monotonically non-decreasing.
    pub times_rented: u64,
}

/// A record as the ledger stores it: the account data together with the
/// derived address it lives at.
pub struct RecordEntry {
    /// The storage address derived from the content hash.
    pub address: [u8; 32],
    /// The record stored at that address.
    pub account: ModelAccount,
}

/// The longest locator string a record may carry.
pub const MAX_STORAGE_URI_LEN: usize = 200;

/// A request to list a new artifact.
pub struct CreateModel {
    /// The identity that will own the listing; must have signed the request.
    pub uploader: [u8; 32],
    /// Content identity of the artifact to list.
    pub model_hash: [u8; 32],
    /// Integrity commitment to store with the record.
    pub merkle_root: [u8; 32],
    /// Off-ledger pointer to the artifact, at most 200 characters.
    pub storage_uri: String,
    /// Cost per rental in the ledger's smallest currency unit.
    pub price_lamports: u64,
}

impl ModelAccount {
    /// Populate a fresh record from a creation request: every field of the
    /// request, the caller's clock, the derivation proof, a listed state and
    /// a zero counter.
    pub fn build(req: CreateModel, now: i64, bump: u8) -> (m: ModelAccount)
        ensures
            m.uploader@ == req.uploader@,
            m.model_hash@ == req.model_hash@,
            m.merkle_root@ == req.merkle_root@,
            m.merkle_present == true,
            m.storage_uri@ == req.storage_uri@,
            m.price_lamports == req.price_lamports,
            m.timestamp == now,
            m.is_available == true,
            m.bump == bump,
            m.times_rented == 0,
    {
        ModelAccount {
            uploader: req.uploader,
            model_hash: req.model_hash,
            merkle_root: req.merkle_root,
            merkle_present: true,
            storage_uri: req.storage_uri,
            price_lamports: req.price_lamports,
            timestamp: now,
            is_available: true,
            bump,
            times_rented: 0,
        }
    }

    /// The rental decision for one record, taken before any transfer: the
    /// counter a successful rental leaves, or why the rental is refused.
    /// The record must be listed as available, and the counter must not
    /// stand at its maximum.
    pub fn next_rental_count(&self) -> (r: Result<u64, ErrorCode>)
        ensures
            !self.is_available ==> r == Err::<u64, ErrorCode>(
                ErrorCode::ModelNotAvailable,
            ),
            self.is_available && self.times_rented == u64::MAX ==> r == Err::<
                u64,
                ErrorCode,
            >(ErrorCode::MathOverflow),
            self.is_available && self.times_rented < u64::MAX ==> r == Ok::<
                u64,
                ErrorCode,
            >((self.times_rented + 1) as u64),
    {
        if !self.is_available {
            Err(ErrorCode::ModelNotAvailable)
        } else if self.times_rented == u64::MAX {
            Err(ErrorCode::MathOverflow)
        } else {
            Ok(self.times_rented + 1)
        }
    }
}

/// A request to rent a listed artifact.
pub struct RentModel {
    /// The identity paying for the rental; must have signed the request.
    pub renter: [u8; 32],
    /// Content identity of the artifact to rent.
    pub model_hash: [u8; 32],
}

/// Notification that a record was created. Append-only; never read back by
/// the registry itself.
pub struct ModelCreated {
    /// Address of the new record.
    pub model: [u8; 32],
    /// Owner of the new record.
    pub uploader: [u8; 32],
    /// Listed price of the new record.
    pub price: u64,
    /// Creation time of the new record.
    pub timestamp: i64,
}

/// Notification that a rental completed. Append-only; never read back by
/// the registry itself.
pub struct ModelRented {
    /// Address of the rented record.
    pub model: [u8; 32],
    /// The identity that paid for the rental.
    pub renter: [u8; 32],
    /// The amount transferred: exactly the record's listed price.
    pub amount: u64,
    /// Time of the rental.
    pub timestamp: i64,
}

/// Whether two 32-byte identities are the same.
pub fn bytes32_eq(a: &[u8; 32], b: &[u8; 32]) -> (r: bool)
    ensures
        r == (a@ == b@),
{
    let mut i: usize = 0;
    while i < 32
        invariant
            i <= 32,
            forall|j: int| 0 <= j < i ==> a@[j] == b@[j],
        decreases 32 - i,
    {
        if a[i] != b[i] {
            return false;
        }
        i = i + 1;
    }
    proof {
        assert(a@ =~= b@);
    }
    true
}

/// Whether a record for content hash `h` stands in `models`.
pub open spec fn has_model(models: Seq<RecordEntry>, h: Seq<u8>) -> bool {
    exists|i: int| 0 <= i < models.len() && models[i].account.model_hash@ == h
}

/// The position of the record for content hash `h` in `models`.
/// Meaningful only when `has_model(models, h)` holds; under
/// `models_wf` that position is unique.
pub open spec fn model_index(models: Seq<RecordEntry>, h: Seq<u8>) -> int {
    choose|i: int| 0 <= i < models.len() && models[i].account.model_hash@ == h
}

/// Well-formedness of the record store: at most one record per content hash,
/// and every locator within its bound.
pub open spec fn models_wf(models: Seq<RecordEntry>) -> bool {
    &&& forall|i: int, j: int|
        0 <= i < models.len() && 0 <= j < models.len() && i != j
            ==> models[i].account.model_hash@ != models[j].account.model_hash@
    &&& forall|i: int|
        0 <= i < models.len()
            ==> (#[trigger] models[i]).account.storage_uri@.len() <= MAX_STORAGE_URI_LEN
}

/// The listed price of the record for content hash `h`. Meaningful only
/// when `has_model(models, h)` holds.
pub open spec fn price_of(models: Seq<RecordEntry>, h: Seq<u8>) -> u64 {
    models[model_index(models, h)].account.price_lamports
}

/// The rental counter of the record for content hash `h`. Meaningful only
/// when `has_model(models, h)` holds.
pub open spec fn count_of(models: Seq<RecordEntry>, h: Seq<u8>) -> u64 {
    models[model_index(models, h)].account.times_rented
}

/// In a well-formed store, a record's position is the one `model_index`
/// names: at most one record carries any hash.
pub proof fn lemma_model_index_unique(models: Seq<RecordEntry>, h: Seq<u8>, i: int)
    requires
        models_wf(models),
        0 <= i < models.len(),
        models[i].account.model_hash@ == h,
    ensures
        has_model(models, h),
        model_index(models, h) == i,
{
    assert(has_model(models, h));
    let j = model_index(models, h);
    assert(0 <= j < models.len() && models[j].account.model_hash@ == h);
    if i != j {
        assert(models[i].account.model_hash@ != models[j].account.model_hash@);
    }
}

} // verus!
