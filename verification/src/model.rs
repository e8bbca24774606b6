//! The mathematical model of the ledger: an abstract state (registry
//! map, balance map, receipt log) and the transition functions every
//! executable entry point is specified against — the engine's decision,
//! the applier's forward step, and the rollback step.
use vstd::prelude::*;
use crate::registry::TickRegistry;
use crate::registry::TickerRec;
use crate::registry::deploy_error;
use crate::registry::mint_credit;
use crate::store::BalanceStore;
use crate::store::Funds;
use crate::types::DRC20Error;
use crate::types::EventV;
use crate::types::LedgerOperationV;
use crate::types::ReceiptV;

verus! {

/// One log row: the height an operation was applied at, the ticker it
/// concerned (empty for an unresolvable transfer), and its receipt.
pub ghost struct LogEntryV {
    pub height: u64,
    pub tick: Seq<u8>,
    pub receipt: ReceiptV,
}

/// The whole abstract ledger state.
pub ghost struct StateV {
    pub tickers: Map<Seq<u8>, TickerRec>,
    pub balances: Map<(Seq<u8>, Seq<u8>), Funds>,
    pub log: Seq<LogEntryV>,
}

impl StateV {
    /// Sound registry entries under their own keys, and transferable
    /// balances within overall balances — everywhere.
    pub open spec fn wf(self) -> bool {
        &&& TickRegistry::map_wf(self.tickers)
        &&& BalanceStore::map_wf(self.balances)
    }
}

/// The ticker an operation concerns, as recorded in its log row; empty
/// for a transfer whose inscription did not resolve.
pub open spec fn tick_of(op: LedgerOperationV) -> Seq<u8> {
    match op.op {
        crate::types::OperationV::Deploy { tick, .. } => tick,
        crate::types::OperationV::Mint { tick, .. } => tick,
        crate::types::OperationV::InscribeTransfer { tick, .. } => tick,
        crate::types::OperationV::Transfer { resolved } => match resolved {
            Some(r) => r.0,
            None => Seq::empty(),
        },
    }
}

/// The engine's pure decision: which event an operation produces against
/// the given registry and balances, or which error rejects it.
pub open spec fn eval(
    tickers: Map<Seq<u8>, TickerRec>,
    balances: Map<(Seq<u8>, Seq<u8>), Funds>,
    op: LedgerOperationV,
) -> Result<EventV, DRC20Error> {
    match op.op {
        crate::types::OperationV::Deploy { tick, max_supply, limit_per_mint, decimals } => {
            match deploy_error(tickers, tick, max_supply, limit_per_mint, decimals) {
                Some(e) => Err(e),
                None => Ok(
                    EventV::Deploy {
                        txid: Some(op.inscription_id.txid),
                        vout: op.new_satpoint.vout,
                        deployed_by: op.to,
                        supply: max_supply,
                        limit_per_mint,
                        decimal: decimals,
                        tick,
                    },
                ),
            }
        },
        crate::types::OperationV::Mint { tick, amount } => {
            if !tickers.dom().contains(tick) {
                Err(DRC20Error::TickerNotFound)
            } else {
                let rec = tickers[tick];
                if amount > rec.limit_per_mint {
                    Err(DRC20Error::MintLimitExceeded)
                } else if rec.remaining() == 0 {
                    Err(DRC20Error::SupplyExhausted)
                } else {
                    let eff = mint_credit(rec, amount);
                    if balances[(op.to, tick)].overall + eff > u128::MAX {
                        Err(DRC20Error::InternalError)
                    } else {
                        Ok(
                            EventV::Mint {
                                txid: Some(op.inscription_id.txid),
                                vout: op.new_satpoint.vout,
                                to: op.to,
                                tick,
                                amount: eff,
                                msg: None,
                            },
                        )
                    }
                }
            }
        },
        crate::types::OperationV::InscribeTransfer { tick, amount } => {
            if !tickers.dom().contains(tick) {
                Err(DRC20Error::TickerNotFound)
            } else if amount > balances[(op.to, tick)].available() {
                Err(DRC20Error::InsufficientBalance)
            } else {
                Ok(
                    EventV::InscribeTransfer {
                        txid: Some(op.inscription_id.txid),
                        to: op.to,
                        vout: op.new_satpoint.vout,
                        tick,
                        amount,
                    },
                )
            }
        },
        crate::types::OperationV::Transfer { resolved } => {
            match resolved {
                None => Err(DRC20Error::TransferInscriptionNotFound),
                Some(res) => {
                    let tick = res.0;
                    let amount = res.1;
                    if balances[(op.from, tick)].transferable < amount {
                        Err(DRC20Error::InsufficientBalance)
                    } else if op.from != op.to && balances[(op.to, tick)].overall + amount
                        > u128::MAX {
                        Err(DRC20Error::InternalError)
                    } else {
                        Ok(
                            EventV::Transfer {
                                txid: Some(op.inscription_id.txid),
                                from: op.from,
                                to: op.to,
                                vout: op.new_satpoint.vout,
                                tick,
                                amount,
                            },
                        )
                    }
                },
            }
        },
    }
}

/// The registry after a successful event is applied at `height`.
pub open spec fn apply_event_tickers(
    tickers: Map<Seq<u8>, TickerRec>,
    op: LedgerOperationV,
    ev: EventV,
    height: u64,
) -> Map<Seq<u8>, TickerRec> {
    match ev {
        EventV::Deploy { deployed_by, supply, limit_per_mint, decimal, tick, .. } => tickers.insert(
            tick,
            (TickerRec {
                tick,
                max_supply: supply,
                limit_per_mint,
                decimals: decimal,
                minted_supply: 0,
                deployer: deployed_by,
                deploy_txid: op.inscription_id.txid,
                deploy_block: height,
            }),
        ),
        EventV::Mint { tick, amount, .. } => {
            let rec = tickers[tick];
            tickers.insert(
                tick,
                (TickerRec { minted_supply: (rec.minted_supply + amount) as u128, ..rec }),
            )
        },
        EventV::InscribeTransfer { .. } => tickers,
        EventV::Transfer { .. } => tickers,
    }
}

/// The balances after a successful event is applied.
pub open spec fn apply_event_balances(
    balances: Map<(Seq<u8>, Seq<u8>), Funds>,
    ev: EventV,
) -> Map<(Seq<u8>, Seq<u8>), Funds> {
    match ev {
        EventV::Deploy { .. } => balances,
        EventV::Mint { to, tick, amount, .. } => {
            let b = balances[(to, tick)];
            balances.insert(
                (to, tick),
                (Funds { overall: (b.overall + amount) as u128, transferable: b.transferable }),
            )
        },
        EventV::InscribeTransfer { to, tick, amount, .. } => {
            let b = balances[(to, tick)];
            balances.insert(
                (to, tick),
                (Funds { overall: b.overall, transferable: (b.transferable + amount) as u128 }),
            )
        },
        EventV::Transfer { from, to, tick, amount, .. } => {
            if from == to {
                let b = balances[(from, tick)];
                balances.insert(
                    (from, tick),
                    (Funds { overall: b.overall, transferable: (b.transferable - amount) as u128 }),
                )
            } else {
                let bf = balances[(from, tick)];
                let bt = balances[(to, tick)];
                balances.insert(
                    (from, tick),
                    (Funds {
                        overall: (bf.overall - amount) as u128,
                        transferable: (bf.transferable - amount) as u128,
                    }),
                ).insert(
                    (to, tick),
                    (Funds { overall: (bt.overall + amount) as u128, transferable: bt.transferable }),
                )
            }
        },
    }
}

/// The receipt an operation leaves behind.
pub open spec fn receipt_of(op: LedgerOperationV, result: Result<EventV, DRC20Error>) -> ReceiptV {
    ReceiptV {
        inscription_id: op.inscription_id,
        inscription_number: op.inscription_number,
        old_satpoint: op.old_satpoint,
        new_satpoint: op.new_satpoint,
        op: op.op.kind(),
        from: op.from,
        to: op.to,
        result,
    }
}

/// Whether applying `op` would abort the whole batch: only an internal
/// invariant violation does, never a protocol-level rejection.
pub open spec fn step_aborts(s: StateV, op: LedgerOperationV) -> bool {
    eval(s.tickers, s.balances, op) == Err::<EventV, DRC20Error>(DRC20Error::InternalError)
}

/// One forward step of the applier at `height`: evaluate, apply the
/// delta on success, and append exactly one receipt either way.
pub open spec fn step(s: StateV, height: u64, op: LedgerOperationV) -> StateV {
    let res = eval(s.tickers, s.balances, op);
    let entry = LogEntryV { height, tick: tick_of(op), receipt: receipt_of(op, res) };
    match res {
        Ok(ev) => StateV {
            tickers: apply_event_tickers(s.tickers, op, ev, height),
            balances: apply_event_balances(s.balances, ev),
            log: s.log.push(entry),
        },
        Err(_) => StateV { tickers: s.tickers, balances: s.balances, log: s.log.push(entry) },
    }
}

/// The state after a whole batch, ignoring aborts (see `apply_ok`).
pub open spec fn apply_seq(s: StateV, height: u64, ops: Seq<LedgerOperationV>) -> StateV
    decreases ops.len(),
{
    if ops.len() == 0 {
        s
    } else {
        step(apply_seq(s, height, ops.drop_last()), height, ops.last())
    }
}

/// Whether a whole batch applies without hitting an internal error.
pub open spec fn apply_ok(s: StateV, height: u64, ops: Seq<LedgerOperationV>) -> bool
    decreases ops.len(),
{
    if ops.len() == 0 {
        true
    } else {
        apply_ok(s, height, ops.drop_last()) && !step_aborts(
            apply_seq(s, height, ops.drop_last()),
            ops.last(),
        )
    }
}

/// Undoes one applied log row against the registry and balances, or
/// `None` when the state does not match the receipt's pre-image — the
/// fatal bookkeeping-corruption case. Rejected receipts changed nothing
/// and undo to the same maps.
pub open spec fn undo_entry(
    tickers: Map<Seq<u8>, TickerRec>,
    balances: Map<(Seq<u8>, Seq<u8>), Funds>,
    e: LogEntryV,
) -> Option<(Map<Seq<u8>, TickerRec>, Map<(Seq<u8>, Seq<u8>), Funds>)> {
    match e.receipt.result {
        Err(_) => Some((tickers, balances)),
        Ok(ev) => match ev {
            EventV::Deploy { tick, .. } => {
                if tickers.dom().contains(tick) {
                    Some((tickers.remove(tick), balances))
                } else {
                    None
                }
            },
            EventV::Mint { to, tick, amount, .. } => {
                if tickers.dom().contains(tick) && amount <= tickers[tick].minted_supply {
                    let rec = tickers[tick];
                    let b = balances[(to, tick)];
                    if amount <= b.overall && b.transferable <= b.overall - amount {
                        Some(
                            (
                                tickers.insert(
                                    tick,
                                    (TickerRec {
                                        minted_supply: (rec.minted_supply - amount) as u128,
                                        ..rec
                                    }),
                                ),
                                balances.insert(
                                    (to, tick),
                                    (Funds {
                                        overall: (b.overall - amount) as u128,
                                        transferable: b.transferable,
                                    }),
                                ),
                            ),
                        )
                    } else {
                        None
                    }
                } else {
                    None
                }
            },
            EventV::InscribeTransfer { to, tick, amount, .. } => {
                let b = balances[(to, tick)];
                if amount <= b.transferable {
                    Some(
                        (
                            tickers,
                            balances.insert(
                                (to, tick),
                                (Funds {
                                    overall: b.overall,
                                    transferable: (b.transferable - amount) as u128,
                                }),
                            ),
                        ),
                    )
                } else {
                    None
                }
            },
            EventV::Transfer { from, to, tick, amount, .. } => {
                if from == to {
                    let b = balances[(from, tick)];
                    if b.transferable + amount <= b.overall {
                        Some(
                            (
                                tickers,
                                balances.insert(
                                    (from, tick),
                                    (Funds {
                                        overall: b.overall,
                                        transferable: (b.transferable + amount) as u128,
                                    }),
                                ),
                            ),
                        )
                    } else {
                        None
                    }
                } else {
                    let bt = balances[(to, tick)];
                    let bf = balances[(from, tick)];
                    if amount <= bt.overall && bt.transferable <= bt.overall - amount && bf.overall
                        + amount <= u128::MAX && bf.transferable + amount <= bf.overall + amount {
                        Some(
                            (
                                tickers,
                                balances.insert(
                                    (to, tick),
                                    (Funds {
                                        overall: (bt.overall - amount) as u128,
                                        transferable: bt.transferable,
                                    }),
                                ).insert(
                                    (from, tick),
                                    (Funds {
                                        overall: (bf.overall + amount) as u128,
                                        transferable: (bf.transferable + amount) as u128,
                                    }),
                                ),
                            ),
                        )
                    } else {
                        None
                    }
                }
            },
        },
    }
}

/// The state rollback reaches: applied rows at or above `height` are
/// inverted newest-first and their log rows dropped, stopping early at
/// the first row whose pre-image does not match (see `undo_ok`).
pub open spec fn undo_progress(s: StateV, height: u64) -> StateV
    decreases s.log.len(),
{
    if s.log.len() == 0 || s.log.last().height < height {
        s
    } else {
        match undo_entry(s.tickers, s.balances, s.log.last()) {
            None => s,
            Some(maps) => undo_progress(
                StateV { tickers: maps.0, balances: maps.1, log: s.log.drop_last() },
                height,
            ),
        }
    }
}

/// Whether rollback from `height` completes without a pre-image mismatch.
pub open spec fn undo_ok(s: StateV, height: u64) -> bool
    decreases s.log.len(),
{
    if s.log.len() == 0 || s.log.last().height < height {
        true
    } else {
        match undo_entry(s.tickers, s.balances, s.log.last()) {
            None => false,
            Some(maps) => undo_ok(
                StateV { tickers: maps.0, balances: maps.1, log: s.log.drop_last() },
                height,
            ),
        }
    }
}

} // verus!
