//! The state-transition engine: a pure decision function. It reads the
//! registry and balance store and returns the event an operation
//! produces — with effective, possibly capped, amounts — or the typed
//! error rejecting it. It never mutates state; the applier does.
use vstd::prelude::*;
use crate::model::eval;
use crate::registry::TickRegistry;
use crate::store::BalanceStore;
use crate::types::DRC20Error;
use crate::types::DeployEvent;
use crate::types::Event;
use crate::types::InscribeTransferEvent;
use crate::types::LedgerOperation;
use crate::types::MintEvent;
use crate::types::Operation;
use crate::types::TransferEvent;
use crate::types::result_view;

verus! {

/// Decides one operation against the current registry and balances:
/// exactly the model's `eval`, with no side effect.
pub fn evaluate(registry: &TickRegistry, store: &BalanceStore, op: &LedgerOperation) -> (r: Result<
    Event,
    DRC20Error,
>)
    requires
        registry.wf(),
        store.wf(),
    ensures
        result_view(r) == eval(registry@, store@, op@),
{
    proof {
        registry.lemma_wf_view();
        store.lemma_wf_view();
    }
    match &op.op {
        Operation::Deploy { tick, max_supply, limit_per_mint, decimals } => {
            if registry.get(tick).is_some() {
                return Err(DRC20Error::DuplicateTicker);
            }
            if *decimals > 18 {
                return Err(DRC20Error::InvalidSupply);
            }
            if *max_supply == 0 {
                return Err(DRC20Error::InvalidSupply);
            }
            let cap = u128::MAX / crate::registry::pow10_exec(*decimals);
            if *max_supply > cap {
                return Err(DRC20Error::InvalidSupply);
            }
            if *limit_per_mint == 0 || *limit_per_mint > *max_supply {
                return Err(DRC20Error::InvalidMintLimit);
            }
            Ok(
                Event::Deploy(
                    DeployEvent {
                        txid: Some(op.inscription_id.txid.duplicate()),
                        vout: op.new_satpoint.vout,
                        deployed_by: op.to.duplicate(),
                        supply: *max_supply,
                        limit_per_mint: *limit_per_mint,
                        decimal: *decimals,
                        tick: tick.duplicate(),
                    },
                ),
            )
        },
        Operation::Mint { tick, amount } => {
            let info = match registry.get(tick) {
                Some(info) => info,
                None => {
                    return Err(DRC20Error::TickerNotFound);
                },
            };
            if *amount > info.limit_per_mint {
                return Err(DRC20Error::MintLimitExceeded);
            }
            if info.minted_supply == info.max_supply {
                return Err(DRC20Error::SupplyExhausted);
            }
            let remaining = info.max_supply - info.minted_supply;
            let eff: u128 = if *amount <= remaining {
                *amount
            } else {
                remaining
            };
            let holder = store.get(&op.to, tick);
            if eff > u128::MAX - holder.overall_balance {
                return Err(DRC20Error::InternalError);
            }
            Ok(
                Event::Mint(
                    MintEvent {
                        txid: Some(op.inscription_id.txid.duplicate()),
                        vout: op.new_satpoint.vout,
                        to: op.to.duplicate(),
                        tick: tick.duplicate(),
                        amount: eff,
                        msg: None,
                    },
                ),
            )
        },
        Operation::InscribeTransfer { tick, amount } => {
            if registry.get(tick).is_none() {
                return Err(DRC20Error::TickerNotFound);
            }
            let holder = store.get(&op.to, tick);
            if *amount > holder.overall_balance - holder.transferable_balance {
                return Err(DRC20Error::InsufficientBalance);
            }
            Ok(
                Event::InscribeTransfer(
                    InscribeTransferEvent {
                        txid: Some(op.inscription_id.txid.duplicate()),
                        to: op.to.duplicate(),
                        vout: op.new_satpoint.vout,
                        tick: tick.duplicate(),
                        amount: *amount,
                    },
                ),
            )
        },
        Operation::Transfer { resolved } => {
            let res = match resolved {
                Some(res) => res,
                None => {
                    return Err(DRC20Error::TransferInscriptionNotFound);
                },
            };
            let sender = store.get(&op.from, &res.tick);
            if sender.transferable_balance < res.amount {
                return Err(DRC20Error::InsufficientBalance);
            }
            if !op.from.same(&op.to) {
                let receiver = store.get(&op.to, &res.tick);
                if res.amount > u128::MAX - receiver.overall_balance {
                    return Err(DRC20Error::InternalError);
                }
            }
            Ok(
                Event::Transfer(
                    TransferEvent {
                        txid: Some(op.inscription_id.txid.duplicate()),
                        from: op.from.duplicate(),
                        to: op.to.duplicate(),
                        vout: op.new_satpoint.vout,
                        tick: res.tick.duplicate(),
                        amount: res.amount,
                    },
                ),
            )
        },
    }
}

} // verus!
