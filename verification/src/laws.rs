//! The registry's laws, stated over the transition relations of
//! [`crate::registry`] and proved once and for all: what the two operations
//! preserve across any run of the system.

use vstd::prelude::*;
use crate::errors::ErrorCode;
use crate::records::CreateModel;
use crate::records::MAX_STORAGE_URI_LEN;
use crate::records::RentModel;
use crate::records::count_of;
use crate::records::has_model;
use crate::records::lemma_model_index_unique;
use crate::records::model_index;
use crate::records::models_wf;
use crate::records::price_of;
use crate::registry::Registry;
use crate::registry::create_transition;
use crate::registry::rent_transition;
use crate::registry::state_eq;

verus! {

/// A failed creation changes nothing: the state it left is the state it
/// found, part for part.
pub proof fn lemma_failed_create_changes_nothing(
    pre: Registry,
    post: Registry,
    req: CreateModel,
    now: i64,
    r: Result<[u8; 32], ErrorCode>,
)
    requires
        create_transition(pre, post, req, now, r),
        r is Err,
    ensures
        state_eq(pre, post),
{
}

/// A failed rental changes nothing: no balance moves, no counter moves, no
/// event is appended. In particular a failure between the payment and the
/// counter increment cannot be observed, because no such state exists.
pub proof fn lemma_failed_rent_changes_nothing(
    pre: Registry,
    post: Registry,
    req: RentModel,
    now: i64,
    r: Result<(), ErrorCode>,
)
    requires
        rent_transition(pre, post, req, now, r),
        r is Err,
    ensures
        state_eq(pre, post),
{
}

/// No creation removes a record: a hash with a record keeps one.
pub proof fn lemma_create_keeps_models(
    pre: Registry,
    post: Registry,
    req: CreateModel,
    now: i64,
    r: Result<[u8; 32], ErrorCode>,
    h: Seq<u8>,
)
    requires
        create_transition(pre, post, req, now, r),
        has_model(pre.models@, h),
    ensures
        has_model(post.models@, h),
{
    let i = choose|i: int| 0 <= i < pre.models@.len() && pre.models@[i].account.model_hash@ == h;
    assert(post.models@[i].account.model_hash@ == h);
}

/// No rental removes a record: a hash with a record keeps one.
pub proof fn lemma_rent_keeps_models(
    pre: Registry,
    post: Registry,
    req: RentModel,
    now: i64,
    r: Result<(), ErrorCode>,
    h: Seq<u8>,
)
    requires
        rent_transition(pre, post, req, now, r),
        has_model(pre.models@, h),
    ensures
        has_model(post.models@, h),
{
    let i = choose|i: int| 0 <= i < pre.models@.len() && pre.models@[i].account.model_hash@ == h;
    assert(post.models@[i].account.model_hash@ == h);
}

/// Uniqueness: once a creation for a content hash has succeeded, a creation
/// for the same hash is refused with `AlreadyExists` and changes nothing —
/// at most one record per hash can ever be allocated.
pub proof fn lemma_create_is_unique(
    pre: Registry,
    mid: Registry,
    req: CreateModel,
    now: i64,
    r: Result<[u8; 32], ErrorCode>,
    post: Registry,
    req2: CreateModel,
    now2: i64,
    r2: Result<[u8; 32], ErrorCode>,
)
    requires
        create_transition(pre, mid, req, now, r),
        r is Ok,
        create_transition(mid, post, req2, now2, r2),
        req2.model_hash@ == req.model_hash@,
    ensures
        r2 == Err::<[u8; 32], ErrorCode>(ErrorCode::AlreadyExists),
        state_eq(mid, post),
{
    let n = mid.models@.len() - 1;
    assert(mid.models@[n].account.model_hash@ == req.model_hash@);
    assert(has_model(mid.models@, req2.model_hash@));
}

/// One operation of the registry, whatever its request, time and outcome.
pub open spec fn registry_step(pre: Registry, post: Registry) -> bool {
    ||| exists|req: CreateModel, now: i64, r: Result<[u8; 32], ErrorCode>|
        create_transition(pre, post, req, now, r)
    ||| exists|req: RentModel, now: i64, r: Result<(), ErrorCode>|
        rent_transition(pre, post, req, now, r)
}

/// No operation removes a record: a hash with a record keeps one.
pub proof fn lemma_step_keeps_models(pre: Registry, post: Registry, h: Seq<u8>)
    requires
        registry_step(pre, post),
        has_model(pre.models@, h),
    ensures
        has_model(post.models@, h),
{
    if exists|req: CreateModel, now: i64, r: Result<[u8; 32], ErrorCode>|
        create_transition(pre, post, req, now, r) {
        let (req, now, r) = choose|req: CreateModel, now: i64, r: Result<[u8; 32], ErrorCode>|
            create_transition(pre, post, req, now, r);
        lemma_create_keeps_models(pre, post, req, now, r, h);
    } else {
        let (req, now, r) = choose|req: RentModel, now: i64, r: Result<(), ErrorCode>|
            rent_transition(pre, post, req, now, r);
        lemma_rent_keeps_models(pre, post, req, now, r, h);
    }
}

/// No run of operations removes a record: a hash with a record in the
/// first state of a chain of steps keeps one in the last.
pub proof fn lemma_chain_keeps_models(states: Seq<Registry>, h: Seq<u8>)
    requires
        states.len() >= 1,
        forall|i: int|
            0 <= i < states.len() - 1 ==> registry_step(#[trigger] states[i], states[i + 1]),
        has_model(states[0].models@, h),
    ensures
        has_model(states.last().models@, h),
    decreases states.len(),
{
    if states.len() > 1 {
        assert(registry_step(states[0], states[1]));
        lemma_step_keeps_models(states[0], states[1], h);
        let rest = states.drop_first();
        assert forall|i: int|
            0 <= i < rest.len() - 1 implies registry_step(#[trigger] rest[i], rest[i + 1]) by {
            assert(registry_step(states[i + 1], states[(i + 1) + 1]));
            assert(rest[i] == states[i + 1]);
            assert(rest[i + 1] == states[i + 2]);
        }
        lemma_chain_keeps_models(rest, h);
        assert(rest.last() == states.last());
    }
}

/// Uniqueness, system-wide: once a creation for a content hash has
/// succeeded, no later creation for the same hash can succeed, however many
/// operations of any kind come between — each such attempt is refused with
/// `AlreadyExists` and changes nothing.
pub proof fn lemma_create_unique_forever(
    pre: Registry,
    states: Seq<Registry>,
    req: CreateModel,
    now: i64,
    post: Registry,
    req2: CreateModel,
    now2: i64,
    r2: Result<[u8; 32], ErrorCode>,
)
    requires
        states.len() >= 1,
        forall|i: int|
            0 <= i < states.len() - 1 ==> registry_step(#[trigger] states[i], states[i + 1]),
        exists|r: Result<[u8; 32], ErrorCode>| create_transition(pre, states[0], req, now, r)
            && r is Ok,
        create_transition(states.last(), post, req2, now2, r2),
        req2.model_hash@ == req.model_hash@,
    ensures
        r2 == Err::<[u8; 32], ErrorCode>(ErrorCode::AlreadyExists),
        state_eq(states.last(), post),
{
    let r = choose|r: Result<[u8; 32], ErrorCode>|
        create_transition(pre, states[0], req, now, r) && r is Ok;
    let n = states[0].models@.len() - 1;
    assert(states[0].models@[n].account.model_hash@ == req.model_hash@);
    assert(has_model(states[0].models@, req.model_hash@));
    lemma_chain_keeps_models(states, req.model_hash@);
}

/// A creation leaves every existing record as it was: same price, same
/// counter, and the store stays well-formed.
pub proof fn lemma_create_keeps_existing_records(
    pre: Registry,
    post: Registry,
    req: CreateModel,
    now: i64,
    r: Result<[u8; 32], ErrorCode>,
    h: Seq<u8>,
)
    requires
        models_wf(pre.models@),
        create_transition(pre, post, req, now, r),
        has_model(pre.models@, h),
        req.storage_uri@.len() <= MAX_STORAGE_URI_LEN,
    ensures
        has_model(post.models@, h),
        models_wf(post.models@),
        price_of(post.models@, h) == price_of(pre.models@, h),
        count_of(post.models@, h) == count_of(pre.models@, h),
{
    let i = model_index(pre.models@, h);
    assert(0 <= i < pre.models@.len() && pre.models@[i].account.model_hash@ == h);
    if r is Ok {
        assert(!has_model(pre.models@, req.model_hash@));
        assert(forall|x: int|
            0 <= x < pre.models@.len() ==> post.models@[x] == pre.models@[x]);
        assert forall|x: int|
            0 <= x < pre.models@.len()
            implies pre.models@[x].account.model_hash@ != req.model_hash@ by {
            if pre.models@[x].account.model_hash@ == req.model_hash@ {
                assert(has_model(pre.models@, req.model_hash@));
            }
        }
        assert(models_wf(post.models@));
        lemma_model_index_unique(post.models@, h, i);
    } else {
        assert(state_eq(pre, post));
        lemma_model_index_unique(post.models@, h, i);
    }
}

/// Price immutability and counter monotonicity across one rental, for every
/// record: a rental never changes any record's price, never decreases any
/// record's counter, and increments by exactly one only the counter of the
/// record it rents.
pub proof fn lemma_rent_keeps_record_fields(
    pre: Registry,
    post: Registry,
    req: RentModel,
    now: i64,
    r: Result<(), ErrorCode>,
    h: Seq<u8>,
)
    requires
        models_wf(pre.models@),
        rent_transition(pre, post, req, now, r),
        has_model(pre.models@, h),
    ensures
        has_model(post.models@, h),
        models_wf(post.models@),
        price_of(post.models@, h) == price_of(pre.models@, h),
        count_of(post.models@, h) >= count_of(pre.models@, h),
        r is Ok && h == req.model_hash@ ==> count_of(post.models@, h) == count_of(
            pre.models@,
            h,
        ) + 1,
        !(r is Ok && h == req.model_hash@) ==> count_of(post.models@, h) == count_of(
            pre.models@,
            h,
        ),
{
    let i = model_index(pre.models@, h);
    assert(0 <= i < pre.models@.len() && pre.models@[i].account.model_hash@ == h);
    if r is Ok {
        assert(has_model(pre.models@, req.model_hash@));
        let j = model_index(pre.models@, req.model_hash@);
        assert(forall|x: int|
            0 <= x < pre.models@.len() && x != j ==> post.models@[x] == pre.models@[x]);
        assert(post.models@[j].account.model_hash@ == pre.models@[j].account.model_hash@);
        assert(models_wf(post.models@));
        lemma_model_index_unique(post.models@, h, i);
        if h == req.model_hash@ {
            lemma_model_index_unique(pre.models@, req.model_hash@, i);
        } else {
            assert(i != j);
        }
    } else {
        assert(state_eq(pre, post));
        lemma_model_index_unique(post.models@, h, i);
    }
}

/// A run of successful rentals of the record for content hash `h`:
/// `states[i]` steps to `states[i + 1]` by the rental `reqs[i]` at time
/// `nows[i]`, and every step succeeds.
pub open spec fn ok_rent_chain(
    states: Seq<Registry>,
    reqs: Seq<RentModel>,
    nows: Seq<i64>,
    h: Seq<u8>,
) -> bool {
    &&& states.len() == reqs.len() + 1
    &&& nows.len() == reqs.len()
    &&& forall|i: int|
        0 <= i < reqs.len() ==> rent_transition(
            states[i],
            states[i + 1],
            #[trigger] reqs[i],
            nows[i],
            Ok(()),
        ) && reqs[i].model_hash@ == h
}

/// Counter additivity: after `n` successful rentals of one record, its
/// counter stands exactly `n` above where it stood, and its price is what
/// it was.
pub proof fn lemma_counter_additive(
    states: Seq<Registry>,
    reqs: Seq<RentModel>,
    nows: Seq<i64>,
    h: Seq<u8>,
)
    requires
        models_wf(states[0].models@),
        has_model(states[0].models@, h),
        ok_rent_chain(states, reqs, nows, h),
    ensures
        has_model(states.last().models@, h),
        models_wf(states.last().models@),
        count_of(states.last().models@, h) == count_of(states[0].models@, h) + reqs.len(),
        price_of(states.last().models@, h) == price_of(states[0].models@, h),
    decreases reqs.len(),
{
    if reqs.len() == 0 {
        assert(states.last() == states[0]);
    } else {
        let r0 = reqs[0];
        assert(rent_transition(states[0], states[1], r0, nows[0], Ok(())));
        lemma_rent_keeps_record_fields(states[0], states[1], reqs[0], nows[0], Ok(()), h);
        let states2 = states.drop_first();
        let reqs2 = reqs.drop_first();
        let nows2 = nows.drop_first();
        assert forall|i: int|
            0 <= i < reqs2.len() implies rent_transition(
            states2[i],
            states2[i + 1],
            #[trigger] reqs2[i],
            nows2[i],
            Ok(()),
        ) && reqs2[i].model_hash@ == h by {
            assert(reqs2[i] == reqs[i + 1]);
            assert(rent_transition(
                states[i + 1],
                states[(i + 1) + 1],
                reqs[i + 1],
                nows[i + 1],
                Ok(()),
            ) && reqs[i + 1].model_hash@ == h);
            assert(states2[i] == states[i + 1]);
            assert(states2[i + 1] == states[i + 2]);
            assert(nows2[i] == nows[i + 1]);
        }
        lemma_counter_additive(states2, reqs2, nows2, h);
        assert(states2.last() == states.last());
    }
}

/// Every successful rental transfers exactly the listed price of the record
/// it rents — the price given at creation, however many rentals have gone
/// before — and the rental event it appends says so.
pub proof fn lemma_rent_pays_listed_price(
    pre: Registry,
    post: Registry,
    req: RentModel,
    now: i64,
)
    requires
        models_wf(pre.models@),
        rent_transition(pre, post, req, now, Ok(())),
    ensures
        has_model(pre.models@, req.model_hash@),
        ({
            let h = req.model_hash@;
            let price = price_of(pre.models@, h);
            let owner = pre.models@[model_index(pre.models@, h)].account.uploader@;
            &&& post.rented_events@.last().amount == price
            &&& req.renter@ != owner ==> post.bank.spec_balance(req.renter@)
                == pre.bank.spec_balance(req.renter@) - price
            &&& req.renter@ != owner ==> post.bank.spec_balance(owner)
                == pre.bank.spec_balance(owner) + price
            &&& req.renter@ == owner ==> forall|k: Seq<u8>|
                post.bank.spec_balance(k) == pre.bank.spec_balance(k)
        }),
{
}

/// Overflow closure: a record whose rental counter stands at the maximum
/// representable value refuses a funded rental with `MathOverflow`, and
/// balances, records and events all stay exactly as they were.
pub proof fn lemma_overflow_closure(
    pre: Registry,
    post: Registry,
    req: RentModel,
    now: i64,
    r: Result<(), ErrorCode>,
)
    requires
        models_wf(pre.models@),
        rent_transition(pre, post, req, now, r),
        has_model(pre.models@, req.model_hash@),
        count_of(pre.models@, req.model_hash@) == u64::MAX,
    ensures
        r == Err::<(), ErrorCode>(ErrorCode::MathOverflow) || r == Err::<(), ErrorCode>(
            ErrorCode::ModelNotAvailable,
        ) || r == Err::<(), ErrorCode>(ErrorCode::InsufficientFunds),
        pre.models@[model_index(pre.models@, req.model_hash@)].account.is_available
            && pre.bank.spec_balance(req.renter@) >= price_of(pre.models@, req.model_hash@)
            ==> r == Err::<(), ErrorCode>(ErrorCode::MathOverflow),
        state_eq(pre, post),
{
}

} // verus!
