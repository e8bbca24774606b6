//! Ledger-application core of a fungible-token protocol layered on an
//! ordered inscription stream: a ticker registry, a per-owner balance
//! store, a pure state-transition engine, a transactional applier with
//! reorg rollback, and an append-only receipt log.
use vstd::prelude::*;

mod engine;
mod laws;
mod ledger;
mod model;
mod registry;
mod store;
mod tick;
mod transaction;
mod types;

pub use engine::evaluate;
pub use laws::lemma_apply_seq_wf;
pub use laws::lemma_exhausted_stays;
pub use laws::lemma_exhausted_stays_seq;
pub use laws::lemma_mint_credits_min;
pub use laws::lemma_minted_supply_bounded;
pub use laws::lemma_one_receipt_no_mutation_on_reject;
pub use laws::lemma_replay_idempotent;
pub use laws::lemma_step_wf;
pub use laws::lemma_supply_exhausted;
pub use laws::lemma_transferable_bounded;
pub use laws::lemma_undo_restores;
pub use ledger::Ledger;
pub use ledger::LogEntry;
pub use ledger::receipts_for_tick;
pub use ledger::receipts_for_txid;
pub use ledger::views_of;
pub use model::LogEntryV;
pub use model::StateV;
pub use model::apply_ok;
pub use model::apply_seq;
pub use model::eval;
pub use model::receipt_of;
pub use model::step;
pub use model::step_aborts;
pub use model::tick_of;
pub use model::undo_entry;
pub use model::undo_ok;
pub use model::undo_progress;
pub use registry::TickRegistry;
pub use registry::TickerInfo;
pub use registry::TickerRec;
pub use registry::deploy_error;
pub use registry::mint_credit;
pub use registry::pow10;
pub use registry::supply_cap;
pub use store::BalanceStore;
pub use store::Funds;
pub use store::StoreEntry;
pub use tick::Tick;
pub use tick::normalized;
pub use transaction::TransactionWithAddress;
pub use transaction::TxInput;
pub use transaction::TxOutWithAddress;
pub use transaction::total_value;
pub use types::Balance;
pub use types::BalanceV;
pub use types::BalanceWithTxId;
pub use types::DRC20Error;
pub use types::Drc20Event;
pub use types::Drc20EventV;
pub use types::project_event;
pub use types::DeployEvent;
pub use types::Event;
pub use types::EventV;
pub use types::InscribeTransferEvent;
pub use types::InscriptionId;
pub use types::InscriptionIdV;
pub use types::LedgerOperation;
pub use types::LedgerOperationV;
pub use types::MintEvent;
pub use types::Operation;
pub use types::OperationType;
pub use types::OperationV;
pub use types::OwnerId;
pub use types::Receipt;
pub use types::result_view;
pub use types::ReceiptV;
pub use types::SatPoint;
pub use types::SatPointV;
pub use types::TransferEvent;
pub use types::TransferRef;
pub use types::Txid;
