//! The protocol's global laws, proved once and for all over the
//! abstract model: supply caps and balance soundness are preserved by
//! every batch, mints credit exactly the capped amount, rollback of a
//! batch restores the exact prior state, and every operation leaves
//! exactly one receipt while rejections leave the state alone.
use vstd::prelude::*;
use crate::model::StateV;
use crate::model::apply_ok;
use crate::model::apply_seq;
use crate::model::eval;
use crate::model::step;
use crate::model::step_aborts;
use crate::model::undo_entry;
use crate::model::undo_ok;
use crate::model::undo_progress;
use crate::registry::TickerRec;
use crate::registry::mint_credit;
use crate::types::DRC20Error;
use crate::types::EventV;
use crate::types::LedgerOperationV;
use crate::types::OperationV;

verus! {

/// One applier step preserves well-formedness: every registry entry
/// keeps `minted_supply <= max_supply` under its own key, and every
/// balance keeps `transferable <= overall`.
pub proof fn lemma_step_wf(s: StateV, height: u64, op: LedgerOperationV)
    requires
        s.wf(),
    ensures
        step(s, height, op).wf(),
{
    let res = eval(s.tickers, s.balances, op);
    if res is Ok {
        let ev = res->Ok_0;
        match ev {
            EventV::Deploy { .. } => {},
            EventV::Mint { .. } => {},
            EventV::InscribeTransfer { .. } => {},
            EventV::Transfer { .. } => {},
        }
    }
}

/// A whole batch preserves well-formedness.
pub proof fn lemma_apply_seq_wf(s: StateV, height: u64, ops: Seq<LedgerOperationV>)
    requires
        s.wf(),
    ensures
        apply_seq(s, height, ops).wf(),
    decreases ops.len(),
{
    if ops.len() > 0 {
        lemma_apply_seq_wf(s, height, ops.drop_last());
        lemma_step_wf(apply_seq(s, height, ops.drop_last()), height, ops.last());
    }
}

/// Minted supply never exceeds the max supply: for every ticker, after
/// any batch of operations applied to a well-formed state.
pub proof fn lemma_minted_supply_bounded(s: StateV, height: u64, ops: Seq<LedgerOperationV>)
    requires
        s.wf(),
    ensures
        forall|t: Seq<u8>| #[trigger]
            apply_seq(s, height, ops).tickers.dom().contains(t) ==> apply_seq(
                s,
                height,
                ops,
            ).tickers[t].minted_supply <= apply_seq(s, height, ops).tickers[t].max_supply,
{
    lemma_apply_seq_wf(s, height, ops);
}

/// Transferable balances never exceed overall balances: for every
/// owner and ticker, after any batch applied to a well-formed state.
pub proof fn lemma_transferable_bounded(s: StateV, height: u64, ops: Seq<LedgerOperationV>)
    requires
        s.wf(),
    ensures
        forall|k: (Seq<u8>, Seq<u8>)|
            (#[trigger] apply_seq(s, height, ops).balances[k]).transferable <= apply_seq(
                s,
                height,
                ops,
            ).balances[k].overall,
{
    lemma_apply_seq_wf(s, height, ops);
}

/// A successful mint credits exactly `min(requested, remaining)`.
pub proof fn lemma_mint_credits_min(s: StateV, op: LedgerOperationV, tick: Seq<u8>, amount: u128)
    requires
        op.op == (OperationV::Mint { tick, amount }),
        (eval(s.tickers, s.balances, op) is Ok),
    ensures
        eval(s.tickers, s.balances, op)->Ok_0 == (EventV::Mint {
            txid: Some(op.inscription_id.txid),
            vout: op.new_satpoint.vout,
            to: op.to,
            tick,
            amount: mint_credit(s.tickers[tick], amount),
            msg: None,
        }),
        mint_credit(s.tickers[tick], amount) == (if amount <= s.tickers[tick].remaining() {
            amount
        } else {
            s.tickers[tick].remaining()
        }),
{
}

/// Once a ticker's supply is exhausted, no further mint succeeds, and
/// any mint within the per-mint limit is rejected as `SupplyExhausted`.
pub proof fn lemma_supply_exhausted(s: StateV, op: LedgerOperationV, tick: Seq<u8>, amount: u128)
    requires
        op.op == (OperationV::Mint { tick, amount }),
        s.tickers.dom().contains(tick),
        s.tickers[tick].remaining() == 0,
    ensures
        (eval(s.tickers, s.balances, op) is Err),
        amount <= s.tickers[tick].limit_per_mint ==> eval(s.tickers, s.balances, op) == Err::<
            EventV,
            DRC20Error,
        >(DRC20Error::SupplyExhausted),
{
}

/// Exhaustion is permanent under forward application: once a ticker's
/// remaining supply is zero, no step revives it — so every later mint
/// of the ticker keeps failing.
pub proof fn lemma_exhausted_stays(s: StateV, height: u64, op: LedgerOperationV, tick: Seq<u8>)
    requires
        s.tickers.dom().contains(tick),
        s.tickers[tick].remaining() == 0,
    ensures
        step(s, height, op).tickers.dom().contains(tick),
        step(s, height, op).tickers[tick].remaining() == 0,
{
}

/// Exhaustion is permanent across whole batches.
pub proof fn lemma_exhausted_stays_seq(
    s: StateV,
    height: u64,
    ops: Seq<LedgerOperationV>,
    tick: Seq<u8>,
)
    requires
        s.tickers.dom().contains(tick),
        s.tickers[tick].remaining() == 0,
    ensures
        apply_seq(s, height, ops).tickers.dom().contains(tick),
        apply_seq(s, height, ops).tickers[tick].remaining() == 0,
    decreases ops.len(),
{
    if ops.len() > 0 {
        lemma_exhausted_stays_seq(s, height, ops.drop_last(), tick);
        lemma_exhausted_stays(apply_seq(s, height, ops.drop_last()), height, ops.last(), tick);
    }
}

/// Every operation leaves exactly one receipt, and a rejected operation
/// mutates nothing: the registry and the balances after a rejecting
/// step are the very maps from before it.
pub proof fn lemma_one_receipt_no_mutation_on_reject(s: StateV, height: u64, op: LedgerOperationV)
    ensures
        step(s, height, op).log.len() == s.log.len() + 1,
        step(s, height, op).log.drop_last() == s.log,
        eval(s.tickers, s.balances, op) is Err ==> step(s, height, op).tickers == s.tickers && step(
            s,
            height,
            op,
        ).balances == s.balances,
{
    assert(step(s, height, op).log.drop_last() =~= s.log);
}

/// Undoing one freshly applied step restores the registry and balance
/// maps from before it and drops its log row.
proof fn lemma_step_undo(s: StateV, height: u64, op: LedgerOperationV)
    requires
        s.wf(),
        !step_aborts(s, op),
    ensures
        step(s, height, op).log.len() == s.log.len() + 1,
        step(s, height, op).log.last().height == height,
        step(s, height, op).log.drop_last() == s.log,
        undo_entry(step(s, height, op).tickers, step(s, height, op).balances, step(
            s,
            height,
            op,
        ).log.last()) == Some((s.tickers, s.balances)),
{
    let s2 = step(s, height, op);
    assert(s2.log.drop_last() =~= s.log);
    let res = eval(s.tickers, s.balances, op);
    if res is Err {
        return ;
    }
    let ev = res->Ok_0;
    match ev {
        EventV::Deploy { tick, .. } => {
            assert(!s.tickers.dom().contains(tick));
            assert(s2.tickers.remove(tick) =~= s.tickers);
        },
        EventV::Mint { to, tick, amount, .. } => {
            assert(to == op.to);
            assert((to, tick) =~= (op.to, tick));
            let rec = s.tickers[tick];
            let b = s.balances[(to, tick)];
            assert(b.overall + amount <= u128::MAX);
            assert(b.wf());
            assert(rec.wf());
            let rec2 = s2.tickers[tick];
            assert(rec2.minted_supply == rec.minted_supply + amount);
            let undone = TickerRec {
                minted_supply: (rec2.minted_supply - amount) as u128,
                ..rec2
            };
            assert(undone =~= rec);
            assert(s2.tickers.insert(tick, undone) =~= s.tickers);
            let b2 = s2.balances[(to, tick)];
            assert(b2.overall == b.overall + amount && b2.transferable == b.transferable);
            assert((crate::store::Funds {
                overall: (b2.overall - amount) as u128,
                transferable: b2.transferable,
            }) =~= b);
            assert(s2.balances.insert(
                (to, tick),
                (crate::store::Funds {
                    overall: (b2.overall - amount) as u128,
                    transferable: b2.transferable,
                }),
            ) =~= s.balances);
        },
        EventV::InscribeTransfer { to, tick, amount, .. } => {
            assert((to, tick) =~= (op.to, tick));
            let b = s.balances[(to, tick)];
            assert(amount <= b.available());
            assert(b.wf());
            let b2 = s2.balances[(to, tick)];
            assert((crate::store::Funds {
                overall: b2.overall,
                transferable: (b2.transferable - amount) as u128,
            }) =~= b);
            assert(s2.balances.insert(
                (to, tick),
                (crate::store::Funds {
                    overall: b2.overall,
                    transferable: (b2.transferable - amount) as u128,
                }),
            ) =~= s.balances);
        },
        EventV::Transfer { from, to, tick, amount, .. } => {
            if from == to {
                assert((from, tick) =~= (op.from, tick));
                let b = s.balances[(from, tick)];
                assert(amount <= b.transferable);
                assert(b.wf());
                let b2 = s2.balances[(from, tick)];
                assert((crate::store::Funds {
                    overall: b2.overall,
                    transferable: (b2.transferable + amount) as u128,
                }) =~= b);
                assert(s2.balances.insert(
                    (from, tick),
                    (crate::store::Funds {
                        overall: b2.overall,
                        transferable: (b2.transferable + amount) as u128,
                    }),
                ) =~= s.balances);
            } else {
                let kf = (from, tick);
                let kt = (to, tick);
                assert(kf =~= (op.from, tick));
                assert(kt =~= (op.to, tick));
                assert(kf != kt);
                let bf = s.balances[kf];
                let bt = s.balances[kt];
                assert(amount <= bf.transferable);
                assert(bt.overall + amount <= u128::MAX);
                assert(bf.wf() && bt.wf());
                let bt2 = s2.balances[kt];
                let bf2 = s2.balances[kf];
                assert(bt2.overall == bt.overall + amount && bt2.transferable == bt.transferable);
                assert(bf2.overall == bf.overall - amount && bf2.transferable == bf.transferable
                    - amount);
                assert((crate::store::Funds {
                    overall: (bt2.overall - amount) as u128,
                    transferable: bt2.transferable,
                }) =~= bt);
                assert((crate::store::Funds {
                    overall: (bf2.overall + amount) as u128,
                    transferable: (bf2.transferable + amount) as u128,
                }) =~= bf);
                assert(s2.balances.insert(
                    kt,
                    (crate::store::Funds {
                        overall: (bt2.overall - amount) as u128,
                        transferable: bt2.transferable,
                    }),
                ).insert(
                    kf,
                    (crate::store::Funds {
                        overall: (bf2.overall + amount) as u128,
                        transferable: (bf2.transferable + amount) as u128,
                    }),
                ) =~= s.balances);
            }
        },
    }
}

/// Rolling back a batch that applied cleanly at `height`, from a state
/// whose prior log rows all sit below `height`, succeeds and restores
/// the exact prior state: registry, balances and log alike.
pub proof fn lemma_undo_restores(s: StateV, height: u64, ops: Seq<LedgerOperationV>)
    requires
        s.wf(),
        forall|i: int| 0 <= i < s.log.len() ==> (#[trigger] s.log[i]).height < height,
        apply_ok(s, height, ops),
    ensures
        undo_ok(apply_seq(s, height, ops), height),
        undo_progress(apply_seq(s, height, ops), height) == s,
    decreases ops.len(),
{
    if ops.len() == 0 {
        if s.log.len() > 0 {
            assert(s.log[s.log.len() - 1].height < height);
        }
    } else {
        let prefix = ops.drop_last();
        let sp = apply_seq(s, height, prefix);
        lemma_undo_restores(s, height, prefix);
        lemma_apply_seq_wf(s, height, prefix);
        lemma_step_undo(sp, height, ops.last());
        let s2 = step(sp, height, ops.last());
        let after_one = StateV { tickers: sp.tickers, balances: sp.balances, log: sp.log };
        assert(after_one == sp);
        assert(undo_progress(s2, height) == undo_progress(sp, height));
        assert(undo_ok(s2, height) == undo_ok(sp, height));
    }
}

/// Replay idempotence: apply a batch, undo it from the same height, and
/// re-apply the identical batch — the registry, balance store and
/// receipt log all come out identical to the first application.
pub proof fn lemma_replay_idempotent(s: StateV, height: u64, ops: Seq<LedgerOperationV>)
    requires
        s.wf(),
        forall|i: int| 0 <= i < s.log.len() ==> (#[trigger] s.log[i]).height < height,
        apply_ok(s, height, ops),
    ensures
        undo_ok(apply_seq(s, height, ops), height),
        apply_seq(undo_progress(apply_seq(s, height, ops), height), height, ops) == apply_seq(
            s,
            height,
            ops,
        ),
{
    lemma_undo_restores(s, height, ops);
}

} // verus!
