use drc20_core::BalanceStore;
use drc20_core::DRC20Error;
use drc20_core::Drc20Event;
use drc20_core::Event;
use drc20_core::InscribeTransferEvent;
use drc20_core::OperationType;
use drc20_core::OwnerId;
use drc20_core::Tick;
use drc20_core::TickRegistry;
use drc20_core::TransactionWithAddress;
use drc20_core::TxOutWithAddress;
use drc20_core::Txid;

fn tick(name: &str) -> Tick {
    Tick::new(&name.as_bytes().to_vec())
}

fn owner(name: &str) -> OwnerId {
    OwnerId::new(name.as_bytes().to_vec())
}

fn txid(seed: u8) -> Txid {
    Txid::new(vec![seed; 32])
}

#[test]
fn registry_register_and_get() {
    let mut reg = TickRegistry::new();
    assert!(reg.get(&tick("FOO")).is_none());
    reg.register(&tick("FOO"), 1000, 100, 0, &owner("alice"), &txid(1), 7).unwrap();
    let info = reg.get(&tick("fOo")).unwrap();
    assert_eq!(info.max_supply, 1000);
    assert_eq!(info.limit_per_mint, 100);
    assert_eq!(info.minted_supply, 0);
    assert_eq!(info.deploy_block, 7);
    let dup = reg.register(&tick("foo"), 1, 1, 0, &owner("bob"), &txid(2), 8);
    assert!(matches!(dup, Err(DRC20Error::DuplicateTicker)));
}

#[test]
fn registry_record_mint_caps_at_remaining() {
    let mut reg = TickRegistry::new();
    reg.register(&tick("FOO"), 100, 100, 0, &owner("alice"), &txid(1), 7).unwrap();
    assert_eq!(reg.record_mint(&tick("FOO"), 60).unwrap(), 60);
    assert_eq!(reg.record_mint(&tick("FOO"), 60).unwrap(), 40);
    assert!(matches!(reg.record_mint(&tick("FOO"), 1), Err(DRC20Error::SupplyExhausted)));
    assert!(matches!(reg.record_mint(&tick("NONE"), 1), Err(DRC20Error::TickerNotFound)));
    assert_eq!(reg.get(&tick("FOO")).unwrap().minted_supply, 100);
}

#[test]
fn registry_rejects_bad_deploys() {
    let mut reg = TickRegistry::new();
    assert!(matches!(
        reg.register(&tick("A"), 0, 1, 0, &owner("x"), &txid(1), 1),
        Err(DRC20Error::InvalidSupply)
    ));
    assert!(matches!(
        reg.register(&tick("B"), 10, 0, 0, &owner("x"), &txid(1), 1),
        Err(DRC20Error::InvalidMintLimit)
    ));
    assert!(matches!(
        reg.register(&tick("C"), 10, 11, 0, &owner("x"), &txid(1), 1),
        Err(DRC20Error::InvalidMintLimit)
    ));
    assert!(matches!(
        reg.register(&tick("D"), u128::MAX / 10 + 1, 1, 1, &owner("x"), &txid(1), 1),
        Err(DRC20Error::InvalidSupply)
    ));
    assert!(reg.register(&tick("E"), u128::MAX / 10, 1, 1, &owner("x"), &txid(1), 1).is_ok());
}

#[test]
fn store_credit_lock_unlock() {
    let mut store = BalanceStore::new();
    let a = owner("alice");
    let t = tick("FOO");
    assert_eq!(store.get(&a, &t).overall_balance, 0);
    store.credit_overall(&a, &t, 100).unwrap();
    assert!(matches!(
        store.lock_transferable(&a, &t, 101),
        Err(DRC20Error::InsufficientBalance)
    ));
    store.lock_transferable(&a, &t, 70).unwrap();
    let b = store.get(&a, &t);
    assert_eq!(b.overall_balance, 100);
    assert_eq!(b.transferable_balance, 70);
    assert!(matches!(store.unlock_transferable(&a, &t, 71), Err(DRC20Error::InternalError)));
    store.unlock_transferable(&a, &t, 70).unwrap();
    assert_eq!(store.get(&a, &t).transferable_balance, 0);
}

#[test]
fn store_credit_overflow_is_internal_error() {
    let mut store = BalanceStore::new();
    let a = owner("alice");
    let t = tick("FOO");
    store.credit_overall(&a, &t, u128::MAX).unwrap();
    assert!(matches!(store.credit_overall(&a, &t, 1), Err(DRC20Error::InternalError)));
    assert_eq!(store.get(&a, &t).overall_balance, u128::MAX);
}

#[test]
fn store_move_transfer_between_owners() {
    let mut store = BalanceStore::new();
    let a = owner("alice");
    let b = owner("bob");
    let t = tick("FOO");
    store.credit_overall(&a, &t, 100).unwrap();
    store.lock_transferable(&a, &t, 60).unwrap();
    assert!(matches!(
        store.move_transfer(&a, &b, &t, 61),
        Err(DRC20Error::InsufficientBalance)
    ));
    store.move_transfer(&a, &b, &t, 60).unwrap();
    let ba = store.get(&a, &t);
    assert_eq!(ba.overall_balance, 40);
    assert_eq!(ba.transferable_balance, 0);
    let bb = store.get(&b, &t);
    assert_eq!(bb.overall_balance, 60);
    assert_eq!(bb.transferable_balance, 0);
}

#[test]
fn store_self_move_only_unlocks() {
    let mut store = BalanceStore::new();
    let a = owner("alice");
    let t = tick("FOO");
    store.credit_overall(&a, &t, 100).unwrap();
    store.lock_transferable(&a, &t, 60).unwrap();
    store.move_transfer(&a, &a, &t, 60).unwrap();
    let b = store.get(&a, &t);
    assert_eq!(b.overall_balance, 100);
    assert_eq!(b.transferable_balance, 0);
}

#[test]
fn event_projection_fills_kind_fields() {
    let e = Event::InscribeTransfer(InscribeTransferEvent {
        txid: Some(txid(9)),
        to: owner("alice"),
        vout: 2,
        tick: tick("FOO"),
        amount: 55,
    });
    let flat = Drc20Event::from_event(&e, Some(700), Some(1234));
    assert_eq!(flat.event, OperationType::InscribeTransfer);
    assert_eq!(flat.vout, 2);
    assert!(flat.from.is_none());
    assert_eq!(flat.to.as_ref().unwrap().bytes, b"alice".to_vec());
    assert_eq!(flat.amt, Some(55));
    assert_eq!(flat.supply, None);
    assert_eq!(flat.limit, None);
    assert_eq!(flat.block, Some(700));
    assert_eq!(flat.timestamp, Some(1234));
}

#[test]
fn transaction_row_totals_outputs() {
    let tx = TransactionWithAddress {
        version: 2,
        lock_time: 0,
        input: Vec::new(),
        output: vec![
            TxOutWithAddress { value: 5000000000, script_pubkey: vec![0x51], address: None },
            TxOutWithAddress {
                value: 5000000000,
                script_pubkey: vec![0x52],
                address: Some("addr".to_string()),
            },
        ],
    };
    assert_eq!(tx.total_output_value(), 10000000000);
}

#[test]
fn empty_tick_is_empty() {
    let t = Tick::empty();
    assert_eq!(t.bytes().len(), 0);
}
