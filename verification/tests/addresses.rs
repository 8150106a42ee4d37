use model_registry::bank::BalanceEntry;
use model_registry::errors::ErrorCode;
use model_registry::records::CreateModel;
use model_registry::records::RentModel;
use model_registry::registry::Registry;

const PROGRAM_ID: [u8; 32] = [
    8, 79, 194, 107, 43, 100, 24, 185, 56, 146, 187, 190, 131, 231, 46, 35, 185, 79, 56, 68, 170,
    105, 80, 116, 204, 62, 96, 219, 235, 62, 167, 232,
];

fn create_req(hash: [u8; 32], price: u64) -> CreateModel {
    CreateModel {
        uploader: [1u8; 32],
        model_hash: hash,
        merkle_root: [0u8; 32],
        storage_uri: String::from("ipfs://abc"),
        price_lamports: price,
    }
}

#[test]
fn the_record_address_is_the_derived_program_address() {
    let h1 = [11u8; 32];
    let mut reg = Registry::new();
    let addr = reg
        .create_model(create_req(h1, 1000), 100)
        .expect("creation of a fresh hash succeeds");

    let program_id = solana_pubkey::Pubkey::new_from_array(PROGRAM_ID);
    let seeds: [&[u8]; 2] = [b"model", &h1];
    let (expected, bump) = solana_pubkey::Pubkey::try_find_program_address(&seeds, &program_id)
        .expect("a bump seed exists for these seeds");
    assert_eq!(addr, expected.to_bytes());
    assert_eq!(reg.models[0].account.bump, bump);
    // The derivation is not the hash itself.
    assert_ne!(addr, h1);
}

#[test]
fn the_same_hash_derives_the_same_address_everywhere() {
    let h1 = [11u8; 32];
    let mut reg_a = Registry::new();
    let mut reg_b = Registry::new();
    let a = reg_a
        .create_model(create_req(h1, 1000), 100)
        .expect("creation of a fresh hash succeeds");
    let b = reg_b
        .create_model(create_req(h1, 2000), 900)
        .expect("creation of a fresh hash succeeds");
    assert_eq!(a, b);
}

#[test]
fn an_owner_balance_near_the_maximum_rejects_the_credit() {
    let mut reg = Registry::new();
    let uploader = [1u8; 32];
    let renter = [2u8; 32];
    let h1 = [11u8; 32];
    reg.bank.accounts.push(BalanceEntry { key: renter, lamports: 1000 });
    reg.bank.accounts.push(BalanceEntry { key: uploader, lamports: u64::MAX - 500 });
    reg.create_model(create_req(h1, 1000), 100)
        .expect("creation of a fresh hash succeeds");

    let r = reg.rent_model(RentModel { renter, model_hash: h1 }, 200);
    assert_eq!(r, Err(ErrorCode::MathOverflow));
    assert_eq!(reg.bank.balance_of(&renter), 1000);
    assert_eq!(reg.bank.balance_of(&uploader), u64::MAX - 500);
    assert_eq!(reg.models[0].account.times_rented, 0);
    assert_eq!(reg.rented_events.len(), 0);
}
