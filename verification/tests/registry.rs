use model_registry::bank::BalanceEntry;
use model_registry::errors::ErrorCode;
use model_registry::records::CreateModel;
use model_registry::records::RentModel;
use model_registry::registry::Registry;

fn create_req(uploader: [u8; 32], hash: [u8; 32], price: u64, uri: &str) -> CreateModel {
    CreateModel {
        uploader,
        model_hash: hash,
        merkle_root: [7u8; 32],
        storage_uri: String::from(uri),
        price_lamports: price,
    }
}

#[test]
fn create_populates_the_record() {
    let mut reg = Registry::new();
    let uploader = [1u8; 32];
    let h1 = [11u8; 32];
    let r = reg.create_model(create_req(uploader, h1, 1000, "ipfs://abc"), 1_700_000_000);
    let addr = r.expect("creation of a fresh hash succeeds");
    assert_eq!(reg.models.len(), 1);
    let rec = &reg.models[0];
    assert_eq!(rec.address, addr);
    assert_eq!(rec.account.uploader, uploader);
    assert_eq!(rec.account.model_hash, h1);
    assert_eq!(rec.account.merkle_root, [7u8; 32]);
    assert!(rec.account.merkle_present);
    assert_eq!(rec.account.storage_uri, "ipfs://abc");
    assert_eq!(rec.account.price_lamports, 1000);
    assert_eq!(rec.account.timestamp, 1_700_000_000);
    assert!(rec.account.is_available);
    assert_eq!(rec.account.times_rented, 0);
    assert_eq!(reg.created_events.len(), 1);
    let ev = &reg.created_events[0];
    assert_eq!(ev.model, addr);
    assert_eq!(ev.uploader, uploader);
    assert_eq!(ev.price, 1000);
    assert_eq!(ev.timestamp, 1_700_000_000);
    assert_eq!(reg.rented_events.len(), 0);
}

#[test]
fn rental_scenario() {
    let mut reg = Registry::new();
    let uploader = [1u8; 32];
    let renter = [2u8; 32];
    let h1 = [11u8; 32];
    let h2 = [12u8; 32];
    reg.bank.accounts.push(BalanceEntry { key: renter, lamports: 1500 });

    let addr = reg
        .create_model(create_req(uploader, h1, 1000, "ipfs://abc"), 100)
        .expect("creation of a fresh hash succeeds");
    assert_eq!(reg.models[0].account.times_rented, 0);
    assert!(reg.models[0].account.is_available);

    // A funded rental pays the listed price to the owner and counts once.
    let r = reg.rent_model(RentModel { renter, model_hash: h1 }, 200);
    assert_eq!(r, Ok(()));
    assert_eq!(reg.bank.balance_of(&uploader), 1000);
    assert_eq!(reg.bank.balance_of(&renter), 500);
    assert_eq!(reg.models[0].account.times_rented, 1);
    assert_eq!(reg.rented_events.len(), 1);
    let ev = &reg.rented_events[0];
    assert_eq!(ev.model, addr);
    assert_eq!(ev.renter, renter);
    assert_eq!(ev.amount, 1000);
    assert_eq!(ev.timestamp, 200);

    // A second creation for the same hash is refused and changes nothing.
    let dup = reg.create_model(create_req(uploader, h1, 2000, "ipfs://other"), 300);
    assert_eq!(dup, Err(ErrorCode::AlreadyExists));
    assert_eq!(reg.models.len(), 1);
    assert_eq!(reg.created_events.len(), 1);
    assert_eq!(reg.models[0].account.price_lamports, 1000);

    // A rental of a hash that was never created finds no record.
    let missing = reg.rent_model(RentModel { renter, model_hash: h2 }, 400);
    assert_eq!(missing, Err(ErrorCode::RecordNotFound));

    // An underfunded rental fails and moves nothing.
    let poor = reg.rent_model(RentModel { renter, model_hash: h1 }, 500);
    assert_eq!(poor, Err(ErrorCode::InsufficientFunds));
    assert_eq!(reg.models[0].account.times_rented, 1);
    assert_eq!(reg.bank.balance_of(&uploader), 1000);
    assert_eq!(reg.bank.balance_of(&renter), 500);
    assert_eq!(reg.rented_events.len(), 1);
}

#[test]
fn every_rental_pays_the_creation_price() {
    let mut reg = Registry::new();
    let uploader = [1u8; 32];
    let renter = [2u8; 32];
    let h1 = [11u8; 32];
    reg.bank.accounts.push(BalanceEntry { key: renter, lamports: 5000 });
    reg.create_model(create_req(uploader, h1, 1000, "ipfs://abc"), 100)
        .expect("creation of a fresh hash succeeds");

    assert_eq!(reg.rent_model(RentModel { renter, model_hash: h1 }, 200), Ok(()));
    assert_eq!(reg.rent_model(RentModel { renter, model_hash: h1 }, 300), Ok(()));
    assert_eq!(reg.rent_model(RentModel { renter, model_hash: h1 }, 400), Ok(()));

    assert_eq!(reg.models[0].account.times_rented, 3);
    assert_eq!(reg.bank.balance_of(&uploader), 3000);
    assert_eq!(reg.bank.balance_of(&renter), 2000);
    assert_eq!(reg.rented_events.len(), 3);
    for ev in &reg.rented_events {
        assert_eq!(ev.amount, 1000);
    }
}

#[test]
fn counter_at_maximum_rejects_and_changes_nothing() {
    let mut reg = Registry::new();
    let uploader = [1u8; 32];
    let renter = [2u8; 32];
    let h1 = [11u8; 32];
    reg.bank.accounts.push(BalanceEntry { key: renter, lamports: 5000 });
    reg.create_model(create_req(uploader, h1, 1000, "ipfs://abc"), 100)
        .expect("creation of a fresh hash succeeds");
    reg.models[0].account.times_rented = u64::MAX;

    let r = reg.rent_model(RentModel { renter, model_hash: h1 }, 200);
    assert_eq!(r, Err(ErrorCode::MathOverflow));
    assert_eq!(reg.models[0].account.times_rented, u64::MAX);
    assert_eq!(reg.bank.balance_of(&uploader), 0);
    assert_eq!(reg.bank.balance_of(&renter), 5000);
    assert_eq!(reg.rented_events.len(), 0);
}

#[test]
fn unavailable_record_rejects_rental() {
    let mut reg = Registry::new();
    let uploader = [1u8; 32];
    let renter = [2u8; 32];
    let h1 = [11u8; 32];
    reg.bank.accounts.push(BalanceEntry { key: renter, lamports: 5000 });
    reg.create_model(create_req(uploader, h1, 1000, "ipfs://abc"), 100)
        .expect("creation of a fresh hash succeeds");
    reg.models[0].account.is_available = false;

    let r = reg.rent_model(RentModel { renter, model_hash: h1 }, 200);
    assert_eq!(r, Err(ErrorCode::ModelNotAvailable));
    assert_eq!(reg.models[0].account.times_rented, 0);
    assert_eq!(reg.bank.balance_of(&renter), 5000);
    assert_eq!(reg.rented_events.len(), 0);
}

#[test]
fn self_rental_moves_no_money_but_needs_the_funds() {
    let mut reg = Registry::new();
    let owner = [1u8; 32];
    let h1 = [11u8; 32];
    reg.create_model(create_req(owner, h1, 1000, "ipfs://abc"), 100)
        .expect("creation of a fresh hash succeeds");

    // The owner cannot rent its own record without holding the price.
    let broke = reg.rent_model(RentModel { renter: owner, model_hash: h1 }, 200);
    assert_eq!(broke, Err(ErrorCode::InsufficientFunds));

    reg.bank.accounts.push(BalanceEntry { key: owner, lamports: 1000 });
    let r = reg.rent_model(RentModel { renter: owner, model_hash: h1 }, 300);
    assert_eq!(r, Ok(()));
    assert_eq!(reg.bank.balance_of(&owner), 1000);
    assert_eq!(reg.models[0].account.times_rented, 1);
    assert_eq!(reg.rented_events.len(), 1);
    assert_eq!(reg.rented_events[0].amount, 1000);
}

#[test]
fn rental_creates_the_owner_balance_entry() {
    let mut reg = Registry::new();
    let uploader = [9u8; 32];
    let renter = [2u8; 32];
    let h1 = [11u8; 32];
    reg.bank.accounts.push(BalanceEntry { key: renter, lamports: 1000 });
    reg.create_model(create_req(uploader, h1, 250, "ipfs://abc"), 100)
        .expect("creation of a fresh hash succeeds");

    assert_eq!(reg.bank.balance_of(&uploader), 0);
    assert_eq!(reg.rent_model(RentModel { renter, model_hash: h1 }, 200), Ok(()));
    assert_eq!(reg.bank.balance_of(&uploader), 250);
    assert_eq!(reg.bank.balance_of(&renter), 750);
}

#[test]
fn distinct_hashes_get_distinct_records() {
    let mut reg = Registry::new();
    let uploader = [1u8; 32];
    let h1 = [11u8; 32];
    let h2 = [12u8; 32];
    let a1 = reg
        .create_model(create_req(uploader, h1, 10, "ipfs://one"), 100)
        .expect("creation of a fresh hash succeeds");
    let a2 = reg
        .create_model(create_req(uploader, h2, 20, "ipfs://two"), 200)
        .expect("creation of a second fresh hash succeeds");
    assert_ne!(a1, a2);
    assert_eq!(reg.models.len(), 2);
    assert_eq!(reg.created_events.len(), 2);
}

#[test]
fn error_messages_name_the_failure() {
    assert_eq!(
        ErrorCode::ModelNotAvailable.message(),
        "Model is not available for rent"
    );
    assert_eq!(ErrorCode::MathOverflow.message(), "Math overflow");
    assert_eq!(ErrorCode::AlreadyExists.message(), "Model record already exists");
    assert_eq!(ErrorCode::RecordNotFound.message(), "Model record not found");
    assert_eq!(
        ErrorCode::InsufficientFunds.message(),
        "Insufficient funds to pay the rental price"
    );
    assert_eq!(
        ErrorCode::AddressUnavailable.message(),
        "No record address available for this hash"
    );
}
