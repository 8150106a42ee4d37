//! The registry core: the ledger state (records, balances, event logs) and
//! its two operations. Each operation is atomic: every check precedes every
//! mutation, so a failed operation returns with the state it found.

use vstd::prelude::*;
use crate::bank::Bank;
use crate::errors::ErrorCode;
use crate::pda::derive_record_address;
use crate::pda::derived_address;
use crate::records::CreateModel;
use crate::records::MAX_STORAGE_URI_LEN;
use crate::records::ModelAccount;
use crate::records::ModelCreated;
use crate::records::ModelRented;
use crate::records::RecordEntry;
use crate::records::RentModel;
use crate::records::bytes32_eq;
use crate::records::has_model;
use crate::records::lemma_model_index_unique;
use crate::records::model_index;
use crate::records::models_wf;

verus! {

/// The whole ledger state the registry acts on: the permanent record store,
/// the currency balances, and the append-only event logs.
pub struct Registry {
    /// One record per distinct content hash; never deleted.
    pub models: Vec<RecordEntry>,
    /// The currency balances of every identity.
    pub bank: Bank,
    /// Append-only log of creation events, in causal order.
    pub created_events: Vec<ModelCreated>,
    /// Append-only log of rental events, in causal order.
    pub rented_events: Vec<ModelRented>,
}

/// Whether two registry states are the same, part for part.
pub open spec fn state_eq(a: Registry, b: Registry) -> bool {
    &&& a.models@ == b.models@
    &&& a.bank.accounts@ == b.bank.accounts@
    &&& a.created_events@ == b.created_events@
    &&& a.rented_events@ == b.rented_events@
}

/// What a newly created record holds: every field of the request, the
/// caller's clock, a fresh counter, and the derived address with its bump.
pub open spec fn new_record_matches(e: RecordEntry, req: CreateModel, now: i64) -> bool {
    &&& e.account.uploader@ == req.uploader@
    &&& e.account.model_hash@ == req.model_hash@
    &&& e.account.merkle_root@ == req.merkle_root@
    &&& e.account.merkle_present == true
    &&& e.account.storage_uri@ == req.storage_uri@
    &&& e.account.price_lamports == req.price_lamports
    &&& e.account.timestamp == now
    &&& e.account.is_available == true
    &&& e.account.times_rented == 0
    &&& derived_address(req.model_hash@) == Some((e.address@, e.account.bump))
}

/// What the creation event for record `e` holds.
pub open spec fn creation_event_matches(
    ev: ModelCreated,
    e: RecordEntry,
    req: CreateModel,
    now: i64,
) -> bool {
    &&& ev.model@ == e.address@
    &&& ev.uploader@ == req.uploader@
    &&& ev.price == req.price_lamports
    &&& ev.timestamp == now
}

/// How one creation operation relates the state it found (`pre`) to the
/// state it left (`post`) and its result `r`: it allocates and populates a
/// record for a hash with no record yet and appends one creation event, or
/// fails with the exact error and no change at all.
pub open spec fn create_transition(
    pre: Registry,
    post: Registry,
    req: CreateModel,
    now: i64,
    r: Result<[u8; 32], ErrorCode>,
) -> bool {
    match derived_address(req.model_hash@) {
        Option::None => r == Err::<[u8; 32], ErrorCode>(ErrorCode::AddressUnavailable)
            && state_eq(pre, post),
        Option::Some(ab) => if has_model(pre.models@, req.model_hash@) {
            r == Err::<[u8; 32], ErrorCode>(ErrorCode::AlreadyExists) && state_eq(pre, post)
        } else {
            &&& r matches Ok(addr) && addr@ == ab.0
            &&& post.models@ == pre.models@.push(post.models@.last())
            &&& new_record_matches(post.models@.last(), req, now)
            &&& post.bank.accounts@ == pre.bank.accounts@
            &&& post.created_events@ == pre.created_events@.push(post.created_events@.last())
            &&& creation_event_matches(post.created_events@.last(), post.models@.last(), req, now)
            &&& post.rented_events@ == pre.rented_events@
        },
    }
}

/// How a rented record differs from what it was: the counter is one higher
/// and every other field is what it was.
pub open spec fn rented_record_updated(old_e: RecordEntry, new_e: RecordEntry) -> bool {
    &&& new_e.address@ == old_e.address@
    &&& new_e.account.uploader@ == old_e.account.uploader@
    &&& new_e.account.model_hash@ == old_e.account.model_hash@
    &&& new_e.account.merkle_root@ == old_e.account.merkle_root@
    &&& new_e.account.merkle_present == old_e.account.merkle_present
    &&& new_e.account.storage_uri@ == old_e.account.storage_uri@
    &&& new_e.account.price_lamports == old_e.account.price_lamports
    &&& new_e.account.timestamp == old_e.account.timestamp
    &&& new_e.account.is_available == old_e.account.is_available
    &&& new_e.account.bump == old_e.account.bump
    &&& new_e.account.times_rented == old_e.account.times_rented + 1
}

/// What the rental event for record `e` holds: the amount is exactly the
/// record's listed price.
pub open spec fn rental_event_matches(
    ev: ModelRented,
    e: RecordEntry,
    req: RentModel,
    now: i64,
) -> bool {
    &&& ev.model@ == e.address@
    &&& ev.renter@ == req.renter@
    &&& ev.amount == e.account.price_lamports
    &&& ev.timestamp == now
}

/// How one rental operation relates the state it found (`pre`) to the state
/// it left (`post`) and its result `r`: it pays the record's listed price
/// from the renter to the record's owner, increments the record's counter by
/// exactly one and appends one rental event — all of it, or, on any failure,
/// none of it, with the exact error.
pub open spec fn rent_transition(
    pre: Registry,
    post: Registry,
    req: RentModel,
    now: i64,
    r: Result<(), ErrorCode>,
) -> bool {
    let h = req.model_hash@;
    if !has_model(pre.models@, h) {
        r == Err::<(), ErrorCode>(ErrorCode::RecordNotFound) && state_eq(pre, post)
    } else {
        let i = model_index(pre.models@, h);
        let m = pre.models@[i];
        let price = m.account.price_lamports;
        let renter_bal = pre.bank.spec_balance(req.renter@);
        let owner_bal = pre.bank.spec_balance(m.account.uploader@);
        if !m.account.is_available {
            r == Err::<(), ErrorCode>(ErrorCode::ModelNotAvailable) && state_eq(pre, post)
        } else if renter_bal < price {
            r == Err::<(), ErrorCode>(ErrorCode::InsufficientFunds) && state_eq(pre, post)
        } else if (req.renter@ != m.account.uploader@ && owner_bal + price > u64::MAX)
            || m.account.times_rented == u64::MAX {
            r == Err::<(), ErrorCode>(ErrorCode::MathOverflow) && state_eq(pre, post)
        } else {
            &&& r is Ok
            &&& post.models@ == pre.models@.update(i, post.models@[i])
            &&& rented_record_updated(m, post.models@[i])
            &&& forall|k: Seq<u8>|
                post.bank.spec_balance(k) == if req.renter@ == m.account.uploader@ {
                    pre.bank.spec_balance(k)
                } else if k == req.renter@ {
                    (renter_bal - price) as u64
                } else if k == m.account.uploader@ {
                    (owner_bal + price) as u64
                } else {
                    pre.bank.spec_balance(k)
                }
            &&& post.created_events@ == pre.created_events@
            &&& post.rented_events@ == pre.rented_events@.push(post.rented_events@.last())
            &&& rental_event_matches(post.rented_events@.last(), m, req, now)
        }
    }
}

/// The position of the record for content hash `h`, if one stands in the
/// store.
fn find_model_index(models: &Vec<RecordEntry>, h: &[u8; 32]) -> (r: Option<usize>)
    ensures
        match r {
            Some(i) => i < models@.len() && models@[i as int].account.model_hash@ == h@
                && forall|j: int| 0 <= j < i ==> models@[j].account.model_hash@ != h@,
            None => forall|j: int| 0 <= j < models@.len()
                ==> models@[j].account.model_hash@ != h@,
        },
{
    let n = models.len();
    let mut i: usize = 0;
    while i < n
        invariant
            n == models@.len(),
            i <= n,
            forall|j: int| 0 <= j < i ==> models@[j].account.model_hash@ != h@,
        decreases n - i,
    {
        if bytes32_eq(&models[i].account.model_hash, h) {
            return Some(i);
        }
        i = i + 1;
    }
    None
}

impl Registry {
    /// Well-formedness of the whole state: at most one record per content
    /// hash, every locator within its bound, and at most one balance entry
    /// per identity.
    pub open spec fn wf(self) -> bool {
        &&& models_wf(self.models@)
        &&& self.bank.wf()
    }

    /// A registry with no records, no balances and no events.
    pub fn new() -> (r: Registry)
        ensures
            r.wf(),
            r.models@.len() == 0,
            r.created_events@.len() == 0,
            r.rented_events@.len() == 0,
            forall|k: Seq<u8>| r.bank.spec_balance(k) == 0,
    {
        Registry {
            models: Vec::new(),
            bank: Bank::new(),
            created_events: Vec::new(),
            rented_events: Vec::new(),
        }
    }

    /// List a new artifact: derive the record's address from its content
    /// hash, materialize a record there exactly once, populate every field,
    /// and append one creation event. Allocation is the sole duplicate gate:
    /// a hash whose address is already occupied is refused with
    /// `AlreadyExists` and no state change. Returns the record's address.
    pub fn create_model(&mut self, req: CreateModel, now: i64) -> (r: Result<[u8; 32], ErrorCode>)
        requires
            old(self).wf(),
            req.storage_uri@.len() <= MAX_STORAGE_URI_LEN,
        ensures
            final(self).wf(),
            create_transition(*old(self), *final(self), req, now, r),
    {
        let derived = derive_record_address(&req.model_hash);
        let (address, bump) = match derived {
            None => {
                return Err(ErrorCode::AddressUnavailable);
            },
            Some(ab) => ab,
        };
        match find_model_index(&self.models, &req.model_hash) {
            Some(_) => {
                return Err(ErrorCode::AlreadyExists);
            },
            None => {},
        }
        let uploader = req.uploader;
        let price = req.price_lamports;
        let account = ModelAccount::build(req, now, bump);
        let entry = RecordEntry { address, account };
        self.models.push(entry);
        self.created_events.push(
            ModelCreated { model: address, uploader, price, timestamp: now },
        );
        Ok(address)
    }

    /// Rent a listed artifact: locate its record by the content hash,
    /// check it is listed as available, pay its listed price from the
    /// renter to its owner, increment its rental counter by exactly one
    /// (refusing with `MathOverflow` at the counter's maximum), and append
    /// one rental event. All checks precede all mutations, so any failure
    /// leaves the whole state exactly as it was.
    pub fn rent_model(&mut self, req: RentModel, now: i64) -> (r: Result<(), ErrorCode>)
        requires
            old(self).wf(),
        ensures
            final(self).wf(),
            rent_transition(*old(self), *final(self), req, now, r),
    {
        let i = match find_model_index(&self.models, &req.model_hash) {
            None => {
                return Err(ErrorCode::RecordNotFound);
            },
            Some(i) => i,
        };
        proof {
            lemma_model_index_unique(self.models@, req.model_hash@, i as int);
        }
        let price = self.models[i].account.price_lamports;
        let owner = self.models[i].account.uploader;
        let address = self.models[i].address;
        let times = self.models[i].account.times_rented;
        if !self.models[i].account.is_available {
            return Err(ErrorCode::ModelNotAvailable);
        }
        let renter_bal = self.bank.balance_of(&req.renter);
        if renter_bal < price {
            return Err(ErrorCode::InsufficientFunds);
        }
        if !bytes32_eq(&req.renter, &owner) {
            let owner_bal = self.bank.balance_of(&owner);
            if owner_bal > u64::MAX - price {
                return Err(ErrorCode::MathOverflow);
            }
        }
        if times == u64::MAX {
            return Err(ErrorCode::MathOverflow);
        }
        // Every check has passed: apply the transfer, the counter increment
        // and the event append as one indivisible block.
        match self.bank.transfer(&req.renter, &owner, price) {
            Ok(()) => {},
            Err(e) => {
                // The checks above guarantee the transfer succeeds.
                return Err(e);
            },
        }
        let ghost models_before = self.models@;
        let mut entry = self.models.remove(i);
        entry.account.times_rented = entry.account.times_rented + 1;
        self.models.insert(i, entry);
        proof {
            assert(self.models@ =~= models_before.update(
                i as int,
                self.models@[i as int],
            ));
        }
        self.rented_events.push(
            ModelRented { model: address, renter: req.renter, amount: price, timestamp: now },
        );
        Ok(())
    }
}

} // verus!
