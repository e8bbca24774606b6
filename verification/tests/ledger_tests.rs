use drc20_core::Balance;
use drc20_core::DRC20Error;
use drc20_core::Event;
use drc20_core::InscriptionId;
use drc20_core::Ledger;
use drc20_core::LedgerOperation;
use drc20_core::Operation;
use drc20_core::OperationType;
use drc20_core::OwnerId;
use drc20_core::SatPoint;
use drc20_core::Tick;
use drc20_core::TransferRef;
use drc20_core::Txid;

fn tick(name: &str) -> Tick {
    Tick::new(&name.as_bytes().to_vec())
}

fn owner(name: &str) -> OwnerId {
    OwnerId::new(name.as_bytes().to_vec())
}

fn txid(seed: u8) -> Txid {
    Txid::new(vec![seed; 32])
}

fn satpoint(seed: u8, vout: u32) -> SatPoint {
    SatPoint { txid: txid(seed), vout, offset: 0 }
}

fn envelope(seed: u8, from: &str, to: &str, op: Operation) -> LedgerOperation {
    LedgerOperation {
        inscription_id: InscriptionId { txid: txid(seed), index: 0 },
        inscription_number: seed as i64,
        old_satpoint: satpoint(seed, 0),
        new_satpoint: satpoint(seed, 1),
        from: owner(from),
        to: owner(to),
        op,
    }
}

fn deploy(seed: u8, by: &str, name: &str, max: u128, limit: u128, decimals: u8) -> LedgerOperation {
    envelope(
        seed,
        by,
        by,
        Operation::Deploy { tick: tick(name), max_supply: max, limit_per_mint: limit, decimals },
    )
}

fn mint(seed: u8, by: &str, name: &str, amount: u128) -> LedgerOperation {
    envelope(seed, by, by, Operation::Mint { tick: tick(name), amount })
}

fn inscribe(seed: u8, by: &str, name: &str, amount: u128) -> LedgerOperation {
    envelope(seed, by, by, Operation::InscribeTransfer { tick: tick(name), amount })
}

fn transfer(seed: u8, from: &str, to: &str, name: &str, amount: u128) -> LedgerOperation {
    envelope(
        seed,
        from,
        to,
        Operation::Transfer { resolved: Some(TransferRef { tick: tick(name), amount }) },
    )
}

#[test]
fn balance_new_is_zeroed() {
    let b = Balance::new(&tick("FOO"));
    assert_eq!(b.overall_balance, 0);
    assert_eq!(b.transferable_balance, 0);
    assert_eq!(b.tick.bytes().as_slice(), b"foo");
}

#[test]
fn tick_normalizes_case() {
    let a = tick("FoOd");
    let b = tick("fOod");
    assert!(a.same(&b));
    assert_eq!(a.bytes().as_slice(), b"food");
}

#[test]
fn deploy_mint_inscribe_transfer_scenario() {
    let mut ledger = Ledger::new();
    let ops = vec![
        deploy(1, "alice", "FOO", 1000, 100, 0),
        mint(2, "alice", "FOO", 60),
        inscribe(3, "alice", "FOO", 60),
        transfer(4, "alice", "bob", "FOO", 60),
    ];
    let receipts = ledger.apply(&ops, 10).unwrap();
    assert_eq!(receipts.len(), 4);
    for r in &receipts {
        assert!(r.result.is_ok());
    }
    let a = ledger.balance_of(&owner("alice"), &tick("FOO"));
    assert_eq!(a.overall_balance, 0);
    assert_eq!(a.transferable_balance, 0);
    let b = ledger.balance_of(&owner("bob"), &tick("FOO"));
    assert_eq!(b.overall_balance, 60);
    assert_eq!(b.transferable_balance, 0);
    let info = ledger.ticker_info(&tick("foo")).unwrap();
    assert_eq!(info.minted_supply, 60);
    assert_eq!(info.max_supply, 1000);
}

#[test]
fn inscribe_locks_transferable() {
    let mut ledger = Ledger::new();
    let ops = vec![
        deploy(1, "alice", "FOO", 1000, 100, 0),
        mint(2, "alice", "FOO", 60),
        inscribe(3, "alice", "FOO", 60),
    ];
    let receipts = ledger.apply(&ops, 10).unwrap();
    assert!(receipts[2].result.is_ok());
    let a = ledger.balance_of(&owner("alice"), &tick("FOO"));
    assert_eq!(a.overall_balance, 60);
    assert_eq!(a.transferable_balance, 60);
}

#[test]
fn mint_partial_fill_then_exhausted() {
    let mut ledger = Ledger::new();
    let ops = vec![
        deploy(1, "alice", "FOO", 1000, 1000, 0),
        mint(2, "alice", "FOO", 960),
        mint(3, "bob", "FOO", 950),
        mint(4, "bob", "FOO", 1),
    ];
    let receipts = ledger.apply(&ops, 10).unwrap();
    match receipts[2].result.as_ref().unwrap() {
        Event::Mint(ev) => assert_eq!(ev.amount, 40),
        _ => panic!("expected a mint event"),
    }
    assert!(matches!(receipts[3].result, Err(DRC20Error::SupplyExhausted)));
    let b = ledger.balance_of(&owner("bob"), &tick("FOO"));
    assert_eq!(b.overall_balance, 40);
    let info = ledger.ticker_info(&tick("FOO")).unwrap();
    assert_eq!(info.minted_supply, 1000);
}

#[test]
fn duplicate_deploy_rejected_first_unaffected() {
    let mut ledger = Ledger::new();
    let ops = vec![
        deploy(1, "alice", "FOO", 1000, 100, 0),
        deploy(2, "bob", "foo", 5000, 500, 2),
    ];
    let receipts = ledger.apply(&ops, 10).unwrap();
    assert!(receipts[0].result.is_ok());
    assert!(matches!(receipts[1].result, Err(DRC20Error::DuplicateTicker)));
    let info = ledger.ticker_info(&tick("FOO")).unwrap();
    assert_eq!(info.max_supply, 1000);
    assert_eq!(info.limit_per_mint, 100);
    assert_eq!(info.decimals, 0);
    assert_eq!(info.deployer.bytes, b"alice".to_vec());
}

#[test]
fn deploy_validation_errors() {
    let mut ledger = Ledger::new();
    let ops = vec![
        deploy(1, "alice", "ZERO", 0, 10, 0),
        deploy(2, "alice", "DEEP", 1000, 10, 19),
        deploy(3, "alice", "NOLIM", 1000, 0, 0),
        deploy(4, "alice", "BIGLIM", 1000, 1001, 0),
        deploy(5, "alice", "HUGE", u128::MAX, 10, 18),
    ];
    let receipts = ledger.apply(&ops, 10).unwrap();
    assert!(matches!(receipts[0].result, Err(DRC20Error::InvalidSupply)));
    assert!(matches!(receipts[1].result, Err(DRC20Error::InvalidSupply)));
    assert!(matches!(receipts[2].result, Err(DRC20Error::InvalidMintLimit)));
    assert!(matches!(receipts[3].result, Err(DRC20Error::InvalidMintLimit)));
    assert!(matches!(receipts[4].result, Err(DRC20Error::InvalidSupply)));
}

#[test]
fn mint_errors() {
    let mut ledger = Ledger::new();
    let ops = vec![
        mint(1, "alice", "GONE", 5),
        deploy(2, "alice", "FOO", 1000, 100, 0),
        mint(3, "alice", "FOO", 101),
    ];
    let receipts = ledger.apply(&ops, 10).unwrap();
    assert!(matches!(receipts[0].result, Err(DRC20Error::TickerNotFound)));
    assert!(matches!(receipts[2].result, Err(DRC20Error::MintLimitExceeded)));
}

#[test]
fn insufficient_balance_and_unresolved_transfer() {
    let mut ledger = Ledger::new();
    let ops = vec![
        deploy(1, "alice", "FOO", 1000, 100, 0),
        mint(2, "alice", "FOO", 50),
        inscribe(3, "alice", "FOO", 51),
        transfer(4, "alice", "bob", "FOO", 10),
        envelope(5, "alice", "bob", Operation::Transfer { resolved: None }),
    ];
    let receipts = ledger.apply(&ops, 10).unwrap();
    assert!(matches!(receipts[2].result, Err(DRC20Error::InsufficientBalance)));
    assert!(matches!(receipts[3].result, Err(DRC20Error::InsufficientBalance)));
    assert!(matches!(receipts[4].result, Err(DRC20Error::TransferInscriptionNotFound)));
    let a = ledger.balance_of(&owner("alice"), &tick("FOO"));
    assert_eq!(a.overall_balance, 50);
    assert_eq!(a.transferable_balance, 0);
}

#[test]
fn self_transfer_unlocks() {
    let mut ledger = Ledger::new();
    let ops = vec![
        deploy(1, "alice", "FOO", 1000, 100, 0),
        mint(2, "alice", "FOO", 60),
        inscribe(3, "alice", "FOO", 40),
        transfer(4, "alice", "alice", "FOO", 40),
    ];
    let receipts = ledger.apply(&ops, 10).unwrap();
    assert!(receipts[3].result.is_ok());
    let a = ledger.balance_of(&owner("alice"), &tick("FOO"));
    assert_eq!(a.overall_balance, 60);
    assert_eq!(a.transferable_balance, 0);
}

#[test]
fn rejected_operations_mutate_nothing() {
    let mut ledger = Ledger::new();
    let setup = vec![deploy(1, "alice", "FOO", 1000, 100, 0), mint(2, "alice", "FOO", 60)];
    ledger.apply(&setup, 10).unwrap();
    let before = ledger.balance_of(&owner("alice"), &tick("FOO"));
    let rejects = vec![mint(3, "alice", "FOO", 9999), inscribe(4, "alice", "FOO", 9999)];
    let receipts = ledger.apply(&rejects, 11).unwrap();
    assert_eq!(receipts.len(), 2);
    assert!(receipts[0].result.is_err());
    assert!(receipts[1].result.is_err());
    let after = ledger.balance_of(&owner("alice"), &tick("FOO"));
    assert_eq!(before.overall_balance, after.overall_balance);
    assert_eq!(before.transferable_balance, after.transferable_balance);
    let info = ledger.ticker_info(&tick("FOO")).unwrap();
    assert_eq!(info.minted_supply, 60);
}

#[test]
fn undo_then_reapply_is_identical() {
    let ops10 = vec![deploy(1, "alice", "FOO", 1000, 100, 0), mint(2, "alice", "FOO", 60)];
    let ops11 = vec![
        mint(3, "bob", "FOO", 100),
        inscribe(4, "bob", "FOO", 70),
        transfer(5, "bob", "carol", "FOO", 70),
        mint(6, "carol", "FOO", 9999),
        deploy(7, "dave", "BAR", 21000, 1000, 8),
    ];
    let mut ledger = Ledger::new();
    ledger.apply(&ops10, 10).unwrap();
    let first = ledger.apply(&ops11, 11).unwrap();
    let bal_bob = ledger.balance_of(&owner("bob"), &tick("FOO"));
    let bal_carol = ledger.balance_of(&owner("carol"), &tick("FOO"));
    let minted = ledger.ticker_info(&tick("FOO")).unwrap().minted_supply;

    ledger.undo_from(11).unwrap();
    assert!(ledger.ticker_info(&tick("BAR")).is_none());
    assert_eq!(ledger.balance_of(&owner("bob"), &tick("FOO")).overall_balance, 0);
    assert_eq!(ledger.ticker_info(&tick("FOO")).unwrap().minted_supply, 60);
    assert_eq!(ledger.receipts_for_transaction(&txid(3)).len(), 0);

    let second = ledger.apply(&ops11, 11).unwrap();
    assert_eq!(first.len(), second.len());
    for (a, b) in first.iter().zip(second.iter()) {
        assert_eq!(a.result.is_ok(), b.result.is_ok());
    }
    assert_eq!(ledger.balance_of(&owner("bob"), &tick("FOO")).overall_balance, bal_bob.overall_balance);
    assert_eq!(
        ledger.balance_of(&owner("bob"), &tick("FOO")).transferable_balance,
        bal_bob.transferable_balance,
    );
    assert_eq!(ledger.balance_of(&owner("carol"), &tick("FOO")).overall_balance, bal_carol.overall_balance);
    assert_eq!(ledger.ticker_info(&tick("FOO")).unwrap().minted_supply, minted);
    assert!(ledger.ticker_info(&tick("BAR")).is_some());
}

#[test]
fn undo_keeps_lower_heights() {
    let mut ledger = Ledger::new();
    ledger.apply(&vec![deploy(1, "alice", "FOO", 1000, 100, 0)], 10).unwrap();
    ledger.apply(&vec![mint(2, "alice", "FOO", 60)], 11).unwrap();
    ledger.undo_from(11).unwrap();
    assert!(ledger.ticker_info(&tick("FOO")).is_some());
    assert_eq!(ledger.balance_of(&owner("alice"), &tick("FOO")).overall_balance, 0);
    assert_eq!(ledger.receipts_for_transaction(&txid(1)).len(), 1);
}

#[test]
fn one_receipt_per_operation() {
    let mut ledger = Ledger::new();
    let ops = vec![
        deploy(1, "alice", "FOO", 1000, 100, 0),
        mint(2, "alice", "FOO", 60),
        mint(3, "alice", "GONE", 60),
        envelope(4, "a", "b", Operation::Transfer { resolved: None }),
    ];
    let receipts = ledger.apply(&ops, 10).unwrap();
    assert_eq!(receipts.len(), ops.len());
    assert_eq!(receipts[0].op, OperationType::Deploy);
    assert_eq!(receipts[1].op, OperationType::Mint);
    assert_eq!(receipts[3].op, OperationType::Transfer);
}

#[test]
fn receipts_by_transaction_and_ticker() {
    let mut ledger = Ledger::new();
    ledger.apply(&vec![deploy(1, "alice", "FOO", 1000, 100, 0)], 10).unwrap();
    ledger
        .apply(&vec![mint(2, "alice", "FOO", 60), deploy(3, "bob", "BAR", 500, 50, 0)], 11)
        .unwrap();
    ledger.apply(&vec![mint(2, "alice", "FOO", 10)], 12).unwrap();

    let for_tx2 = ledger.receipts_for_transaction(&txid(2));
    assert_eq!(for_tx2.len(), 2);
    assert_eq!(for_tx2[0].op, OperationType::Mint);

    let foo_all = ledger.events_for_ticker(&tick("foo"), 0, u64::MAX);
    assert_eq!(foo_all.len(), 3);
    let foo_11 = ledger.events_for_ticker(&tick("FOO"), 11, 11);
    assert_eq!(foo_11.len(), 1);
    let bar = ledger.events_for_ticker(&tick("BAR"), 0, u64::MAX);
    assert_eq!(bar.len(), 1);
}

#[test]
fn evaluate_is_pure_and_matches_apply() {
    let mut ledger = Ledger::new();
    ledger.apply(&vec![deploy(1, "alice", "FOO", 1000, 100, 0)], 10).unwrap();
    let op = mint(2, "alice", "FOO", 60);
    let decided = ledger.evaluate(&op);
    match decided.unwrap() {
        Event::Mint(ev) => assert_eq!(ev.amount, 60),
        _ => panic!("expected a mint event"),
    }
    // evaluating changed nothing
    assert_eq!(ledger.balance_of(&owner("alice"), &tick("FOO")).overall_balance, 0);
    assert_eq!(ledger.ticker_info(&tick("FOO")).unwrap().minted_supply, 0);
}

#[test]
fn mint_event_carries_effective_amount() {
    let mut ledger = Ledger::new();
    let ops = vec![deploy(1, "alice", "FOO", 100, 100, 0), mint(2, "alice", "FOO", 75), mint(
        3, "bob", "FOO", 75,
    )];
    let receipts = ledger.apply(&ops, 10).unwrap();
    match receipts[1].result.as_ref().unwrap() {
        Event::Mint(ev) => assert_eq!(ev.amount, 75),
        _ => panic!("expected a mint event"),
    }
    match receipts[2].result.as_ref().unwrap() {
        Event::Mint(ev) => assert_eq!(ev.amount, 25),
        _ => panic!("expected a mint event"),
    }
    assert_eq!(ledger.balance_of(&owner("bob"), &tick("FOO")).overall_balance, 25);
}
