//! The ledger applier: pulls operations in the caller-supplied canonical
//! order, lets the engine decide each one, applies the delta as one
//! atomic unit, appends exactly one receipt per operation, and can roll
//! a contiguous suffix of heights back for chain reorganisation.
use vstd::prelude::*;
use crate::engine::evaluate;
use crate::model::LogEntryV;
use crate::model::StateV;
use crate::model::apply_ok;
use crate::model::apply_seq;
use crate::model::eval;
use crate::model::receipt_of;
use crate::model::step;
use crate::model::step_aborts;
use crate::model::tick_of;
use crate::model::undo_entry;
use crate::model::undo_ok;
use crate::model::undo_progress;
use crate::registry::TickRegistry;
use crate::registry::TickerInfo;
use crate::store::BalanceStore;
use crate::tick::Tick;
use crate::types::Balance;
use crate::types::DRC20Error;
use crate::types::Event;
use crate::types::LedgerOperation;
use crate::types::LedgerOperationV;
use crate::types::Operation;
use crate::types::OwnerId;
use crate::types::Receipt;
use crate::types::ReceiptV;
use crate::types::Txid;
use crate::types::result_view;

verus! {

/// The batch of operation values a batch of operations stands for.
pub open spec fn views_of(ops: Seq<LedgerOperation>) -> Seq<LedgerOperationV> {
    ops.map_values(|o: LedgerOperation| o@)
}

/// One row of the receipt log.
pub struct LogEntry {
    pub height: u64,
    pub tick: Tick,
    pub receipt: Receipt,
}

impl LogEntry {
    pub open spec fn view(&self) -> LogEntryV {
        LogEntryV { height: self.height, tick: self.tick@, receipt: self.receipt@ }
    }
}

/// The receipts in `log` belonging to the transaction `txid`, in
/// application order.
pub open spec fn receipts_for_txid(log: Seq<LogEntryV>, txid: Seq<u8>) -> Seq<ReceiptV>
    decreases log.len(),
{
    if log.len() == 0 {
        Seq::empty()
    } else if log.last().receipt.inscription_id.txid == txid {
        receipts_for_txid(log.drop_last(), txid).push(log.last().receipt)
    } else {
        receipts_for_txid(log.drop_last(), txid)
    }
}

/// The receipts in `log` concerning ticker `tick` at heights in
/// `lo ..= hi`, in application order.
pub open spec fn receipts_for_tick(
    log: Seq<LogEntryV>,
    tick: Seq<u8>,
    lo: u64,
    hi: u64,
) -> Seq<ReceiptV>
    decreases log.len(),
{
    if log.len() == 0 {
        Seq::empty()
    } else if log.last().tick == tick && lo <= log.last().height <= hi {
        receipts_for_tick(log.drop_last(), tick, lo, hi).push(log.last().receipt)
    } else {
        receipts_for_tick(log.drop_last(), tick, lo, hi)
    }
}

/// The ticker an operation concerns, for its log row.
fn op_tick(op: &LedgerOperation) -> (t: Tick)
    ensures
        t@ == tick_of(op@),
{
    match &op.op {
        Operation::Deploy { tick, .. } => tick.duplicate(),
        Operation::Mint { tick, .. } => tick.duplicate(),
        Operation::InscribeTransfer { tick, .. } => tick.duplicate(),
        Operation::Transfer { resolved } => match resolved {
            Some(r) => r.tick.duplicate(),
            None => Tick::empty(),
        },
    }
}

/// The whole ledger core: registry, balance store and receipt log,
/// mutated only through the applier's transactional discipline.
pub struct Ledger {
    registry: TickRegistry,
    store: BalanceStore,
    log: Vec<LogEntry>,
}

impl Ledger {
    /// The abstract state this ledger stands for.
    pub closed spec fn view(&self) -> StateV {
        StateV {
            tickers: self.registry@,
            balances: self.store@,
            log: self.log@.map_values(|e: LogEntry| e@),
        }
    }

    pub closed spec fn wf(&self) -> bool {
        &&& self.registry.wf()
        &&& self.store.wf()
    }

    /// A well-formed ledger has a well-formed abstract state.
    pub proof fn lemma_wf_view(&self)
        requires
            self.wf(),
        ensures
            self@.wf(),
    {
        self.registry.lemma_wf_view();
        self.store.lemma_wf_view();
    }

    /// An empty ledger: no tickers, only zero balances, no receipts.
    pub fn new() -> (r: Ledger)
        ensures
            r.wf(),
            r@.tickers == Map::<Seq<u8>, crate::registry::TickerRec>::empty(),
            r@.log == Seq::<LogEntryV>::empty(),
            forall|k: (Seq<u8>, Seq<u8>)| r@.balances[k] == crate::store::Funds::zero(),
    {
        let r = Ledger { registry: TickRegistry::new(), store: BalanceStore::new(), log: Vec::new() };
        proof {
            assert(r.log@.map_values(|e: LogEntry| e@) =~= Seq::<LogEntryV>::empty());
        }
        r
    }

    /// The engine's decision for one operation against the current
    /// state, with no side effect.
    pub fn evaluate(&self, op: &LedgerOperation) -> (r: Result<Event, DRC20Error>)
        requires
            self.wf(),
        ensures
            result_view(r) == eval(self@.tickers, self@.balances, op@),
    {
        evaluate(&self.registry, &self.store, op)
    }

    /// Applies one operation: evaluate, mutate atomically on success,
    /// append exactly one receipt either way. An `InternalError` from
    /// the engine aborts with nothing changed and nothing recorded.
    fn apply_one(&mut self, height: u64, op: &LedgerOperation) -> (r: Result<Receipt, DRC20Error>)
        requires
            old(self).wf(),
        ensures
            final(self).wf(),
            step_aborts(old(self)@, op@) ==> r == Err::<Receipt, DRC20Error>(
                DRC20Error::InternalError,
            ) && final(self)@ == old(self)@,
            !step_aborts(old(self)@, op@) ==> r is Ok && r->Ok_0@ == receipt_of(
                op@,
                eval(old(self)@.tickers, old(self)@.balances, op@),
            ) && final(self)@ == step(old(self)@, height, op@),
    {
        let decision = evaluate(&self.registry, &self.store, op);
        let ghost res = eval(old(self)@.tickers, old(self)@.balances, op@);
        let result: Result<Event, DRC20Error> = match decision {
            Err(e) => {
                if matches!(e, DRC20Error::InternalError) {
                    return Err(DRC20Error::InternalError);
                }
                Err(e)
            },
            Ok(event) => {
                match &event {
                    Event::Deploy(ev) => {
                        let outcome = self.registry.register(
                            &ev.tick,
                            ev.supply,
                            ev.limit_per_mint,
                            ev.decimal,
                            &op.to,
                            &op.inscription_id.txid,
                            height,
                        );
                        if outcome.is_err() {
                            return Err(DRC20Error::InternalError);
                        }
                    },
                    Event::Mint(ev) => {
                        proof {
                            self.registry.lemma_wf_view();
                        }
                        if self.registry.record_mint(&ev.tick, ev.amount).is_err() {
                            return Err(DRC20Error::InternalError);
                        }
                        if self.store.credit_overall(&ev.to, &ev.tick, ev.amount).is_err() {
                            return Err(DRC20Error::InternalError);
                        }
                    },
                    Event::InscribeTransfer(ev) => {
                        if self.store.lock_transferable(&ev.to, &ev.tick, ev.amount).is_err() {
                            return Err(DRC20Error::InternalError);
                        }
                    },
                    Event::Transfer(ev) => {
                        if self.store.move_transfer(
                            &ev.from,
                            &ev.to,
                            &ev.tick,
                            ev.amount,
                        ).is_err() {
                            return Err(DRC20Error::InternalError);
                        }
                    },
                }
                Ok(event)
            },
        };
        let receipt = Receipt {
            inscription_id: op.inscription_id.duplicate(),
            inscription_number: op.inscription_number,
            old_satpoint: op.old_satpoint.duplicate(),
            new_satpoint: op.new_satpoint.duplicate(),
            op: op.op.kind(),
            from: op.from.duplicate(),
            to: op.to.duplicate(),
            result,
        };
        let returned = receipt.duplicate();
        let ghost pre_log = self.log@;
        self.log.push(LogEntry { height, tick: op_tick(op), receipt });
        proof {
            assert(self.log@.drop_last() =~= pre_log);
            assert(self@.log =~= pre_log.map_values(|e: LogEntry| e@).push(
                (LogEntryV { height, tick: tick_of(op@), receipt: receipt_of(op@, res) }),
            ));
            assert(final(self)@ == step(old(self)@, height, op@));
        }
        Ok(returned)
    }

    /// Ingests a batch of operations at one height, in the given order.
    /// Returns one receipt per operation; protocol-level rejections are
    /// recorded and do not stop the batch. An internal invariant
    /// violation aborts the batch at the offending operation: it is
    /// surfaced, not recorded, and the operations before it stay applied.
    pub fn apply(&mut self, ops: &Vec<LedgerOperation>, height: u64) -> (r: Result<
        Vec<Receipt>,
        DRC20Error,
    >)
        requires
            old(self).wf(),
        ensures
            final(self).wf(),
            match r {
                Ok(receipts) => {
                    &&& apply_ok(old(self)@, height, views_of(ops@))
                    &&& final(self)@ == apply_seq(old(self)@, height, views_of(ops@))
                    &&& receipts@.len() == ops@.len()
                    &&& final(self)@.log.len() == old(self)@.log.len() + ops@.len()
                    &&& forall|j: int| 0 <= j < receipts@.len() ==> (#[trigger] receipts@[j])@
                        == final(self)@.log[old(self)@.log.len() + j].receipt
                },
                Err(e) => {
                    &&& e == DRC20Error::InternalError
                    &&& exists|i: int|
                        0 <= i < ops@.len() && apply_ok(
                            old(self)@,
                            height,
                            views_of(ops@).take(i),
                        ) && step_aborts(
                            apply_seq(old(self)@, height, views_of(ops@).take(i)),
                            views_of(ops@)[i],
                        ) && final(self)@ == apply_seq(old(self)@, height, views_of(ops@).take(i))
                },
            },
    {
        let ghost opsv = views_of(ops@);
        let mut receipts: Vec<Receipt> = Vec::new();
        let mut i: usize = 0;
        proof {
            assert(opsv.take(0) =~= Seq::<LedgerOperationV>::empty());
        }
        while i < ops.len()
            invariant
                i <= ops@.len(),
                opsv == views_of(ops@),
                old(self).wf(),
                self.wf(),
                apply_ok(old(self)@, height, opsv.take(i as int)),
                self@ == apply_seq(old(self)@, height, opsv.take(i as int)),
                self@.log.len() == old(self)@.log.len() + i,
                receipts@.len() == i,
                forall|j: int| 0 <= j < i ==> (#[trigger] receipts@[j])@ == self@.log[old(
                    self,
                )@.log.len() + j].receipt,
            decreases ops@.len() - i,
        {
            let ghost pre = self@;
            proof {
                assert(opsv.take(i + 1).drop_last() =~= opsv.take(i as int));
                assert(opsv.take(i + 1).last() == opsv[i as int]);
                assert(opsv[i as int] == ops@[i as int]@);
            }
            match self.apply_one(height, &ops[i]) {
                Ok(receipt) => {
                    receipts.push(receipt);
                },
                Err(e) => {
                    proof {
                        assert(apply_ok(old(self)@, height, opsv.take(i as int)) && step_aborts(
                            apply_seq(old(self)@, height, opsv.take(i as int)),
                            opsv[i as int],
                        ) && self@ == apply_seq(old(self)@, height, opsv.take(i as int)));
                    }
                    return Err(e);
                },
            }
            i = i + 1;
        }
        proof {
            assert(opsv.take(ops@.len() as int) =~= opsv);
        }
        Ok(receipts)
    }

    /// Undoes the newest log row: inverts its state delta, if any, and
    /// drops the row. Fails with `InternalError` — changing nothing —
    /// when the current state does not match the receipt's pre-image.
    fn undo_last(&mut self) -> (r: Result<(), DRC20Error>)
        requires
            old(self).wf(),
            old(self)@.log.len() > 0,
        ensures
            final(self).wf(),
            match undo_entry(old(self)@.tickers, old(self)@.balances, old(self)@.log.last()) {
                Some(maps) => r is Ok && final(self)@ == (StateV {
                    tickers: maps.0,
                    balances: maps.1,
                    log: old(self)@.log.drop_last(),
                }),
                None => r == Err::<(), DRC20Error>(DRC20Error::InternalError) && final(self)@
                    == old(self)@,
            },
    {
        proof {
            self.store.lemma_wf_view();
        }
        let idx = self.log.len() - 1;
        let ghost pre_log = self.log@;
        if self.log[idx].receipt.result.is_err() {
            self.log.pop();
            proof {
                assert(self@.log =~= old(self)@.log.drop_last());
            }
            return Ok(());
        }
        let ev = match &self.log[idx].receipt.result {
            Ok(e) => e.duplicate(),
            Err(e) => {
                return Err(*e);
            },
        };
        match &ev {
            Event::Deploy(e) => {
                match self.registry.unregister(&e.tick) {
                    Ok(_) => {},
                    Err(err) => {
                        return Err(err);
                    },
                }
            },
            Event::Mint(e) => {
                let b = self.store.get(&e.to, &e.tick);
                if e.amount > b.overall_balance || b.transferable_balance > b.overall_balance
                    - e.amount {
                    return Err(DRC20Error::InternalError);
                }
                match self.registry.revert_mint(&e.tick, e.amount) {
                    Ok(_) => {},
                    Err(err) => {
                        return Err(err);
                    },
                }
                if self.store.debit_overall(&e.to, &e.tick, e.amount).is_err() {
                    return Err(DRC20Error::InternalError);
                }
            },
            Event::InscribeTransfer(e) => {
                match self.store.unlock_transferable(&e.to, &e.tick, e.amount) {
                    Ok(_) => {},
                    Err(err) => {
                        return Err(err);
                    },
                }
            },
            Event::Transfer(e) => {
                if e.from.same(&e.to) {
                    match self.store.relock_transferable(&e.from, &e.tick, e.amount) {
                        Ok(_) => {},
                        Err(err) => {
                            return Err(err);
                        },
                    }
                } else {
                    let bt = self.store.get(&e.to, &e.tick);
                    let bf = self.store.get(&e.from, &e.tick);
                    if e.amount > bt.overall_balance || bt.transferable_balance
                        > bt.overall_balance - e.amount {
                        return Err(DRC20Error::InternalError);
                    }
                    if e.amount > u128::MAX - bf.overall_balance {
                        return Err(DRC20Error::InternalError);
                    }
                    if self.store.debit_overall(&e.to, &e.tick, e.amount).is_err() {
                        return Err(DRC20Error::InternalError);
                    }
                    if self.store.credit_overall(&e.from, &e.tick, e.amount).is_err() {
                        return Err(DRC20Error::InternalError);
                    }
                    if self.store.relock_transferable(&e.from, &e.tick, e.amount).is_err() {
                        return Err(DRC20Error::InternalError);
                    }
                    proof {
                        let kt = (e.to@, e.tick@);
                        let kf = (e.from@, e.tick@);
                        assert(kf != kt);
                        assert(self@.balances =~= old(self)@.balances.insert(
                            kt,
                            (crate::store::Funds {
                                overall: (old(self)@.balances[kt].overall - e.amount) as u128,
                                transferable: old(self)@.balances[kt].transferable,
                            }),
                        ).insert(
                            kf,
                            (crate::store::Funds {
                                overall: (old(self)@.balances[kf].overall + e.amount) as u128,
                                transferable: (old(self)@.balances[kf].transferable
                                    + e.amount) as u128,
                            }),
                        ));
                    }
                }
            },
        }
        self.log.pop();
        proof {
            assert(self@.log =~= old(self)@.log.drop_last());
        }
        Ok(())
    }

    /// Rolls the ledger back for a chain reorganisation: every applied
    /// row at height `height` or above is inverted, newest first, and
    /// its receipt dropped, restoring the exact state from before the
    /// first operation at `height`. A pre-image mismatch is fatal: the
    /// rollback stops there with `InternalError` and no partial repair.
    pub fn undo_from(&mut self, height: u64) -> (r: Result<(), DRC20Error>)
        requires
            old(self).wf(),
        ensures
            final(self).wf(),
            final(self)@ == undo_progress(old(self)@, height),
            r is Ok <==> undo_ok(old(self)@, height),
            r is Err ==> r == Err::<(), DRC20Error>(DRC20Error::InternalError),
    {
        while self.log.len() > 0 && self.log[self.log.len() - 1].height >= height
            invariant
                self.wf(),
                undo_progress(old(self)@, height) == undo_progress(self@, height),
                undo_ok(old(self)@, height) == undo_ok(self@, height),
            decreases self.log.len(),
        {
            let ghost cur = self@;
            proof {
                assert(cur.log.last() == self.log@.last()@);
            }
            match self.undo_last() {
                Ok(_) => {
                    proof {
                        assert(self@.log == cur.log.drop_last());
                        assert(self.log@.len() == self@.log.len());
                    }
                },
                Err(e) => {
                    proof {
                        assert(undo_entry(cur.tickers, cur.balances, cur.log.last()) is None);
                        assert(undo_progress(cur, height) == cur);
                        assert(!undo_ok(cur, height));
                    }
                    return Err(e);
                },
            }
        }
        proof {
            if self.log@.len() > 0 {
                assert(self@.log.last() == self.log@.last()@);
            }
            assert(undo_progress(self@, height) == self@);
            assert(undo_ok(self@, height));
        }
        Ok(())
    }

    /// The balance of (owner, ticker): zero when never credited.
    pub fn balance_of(&self, owner: &OwnerId, tick: &Tick) -> (r: Balance)
        ensures
            r@.tick == tick@,
            r@.overall_balance == self@.balances[(owner@, tick@)].overall,
            r@.transferable_balance == self@.balances[(owner@, tick@)].transferable,
    {
        self.store.get(owner, tick)
    }

    /// The registry entry of a ticker, if deployed.
    pub fn ticker_info(&self, tick: &Tick) -> (r: Option<&TickerInfo>)
        ensures
            match r {
                Some(info) => self@.tickers.dom().contains(tick@) && info@ == self@.tickers[tick@],
                None => !self@.tickers.dom().contains(tick@),
            },
    {
        self.registry.get(tick)
    }

    /// All receipts of the transaction `txid`, in application order.
    pub fn receipts_for_transaction(&self, txid: &Txid) -> (r: Vec<Receipt>)
        ensures
            r@.map_values(|x: Receipt| x@) == receipts_for_txid(self@.log, txid@),
    {
        let ghost logv = self@.log;
        let mut out: Vec<Receipt> = Vec::new();
        let mut i: usize = 0;
        proof {
            assert(logv.take(0) =~= Seq::<LogEntryV>::empty());
            assert(out@.map_values(|x: Receipt| x@) =~= receipts_for_txid(logv.take(0), txid@));
        }
        while i < self.log.len()
            invariant
                i <= self.log@.len(),
                logv == self@.log,
                out@.map_values(|x: Receipt| x@) == receipts_for_txid(logv.take(i as int), txid@),
            decreases self.log@.len() - i,
        {
            proof {
                assert(logv.take(i + 1).drop_last() =~= logv.take(i as int));
                assert(logv.take(i + 1).last() == logv[i as int]);
                assert(logv[i as int] == self.log@[i as int]@);
            }
            if self.log[i].receipt.inscription_id.txid.same(txid) {
                out.push(self.log[i].receipt.duplicate());
                proof {
                    assert(out@.map_values(|x: Receipt| x@) =~= receipts_for_txid(
                        logv.take(i + 1),
                        txid@,
                    ));
                }
            }
            i = i + 1;
        }
        proof {
            assert(logv.take(self.log@.len() as int) =~= logv);
        }
        out
    }

    /// The receipts concerning `tick` at heights in `lo ..= hi`, in
    /// application order: a ticker's finite, restartable audit trail.
    pub fn events_for_ticker(&self, tick: &Tick, lo: u64, hi: u64) -> (r: Vec<Receipt>)
        ensures
            r@.map_values(|x: Receipt| x@) == receipts_for_tick(self@.log, tick@, lo, hi),
    {
        let ghost logv = self@.log;
        let mut out: Vec<Receipt> = Vec::new();
        let mut i: usize = 0;
        proof {
            assert(logv.take(0) =~= Seq::<LogEntryV>::empty());
            assert(out@.map_values(|x: Receipt| x@) =~= receipts_for_tick(
                logv.take(0),
                tick@,
                lo,
                hi,
            ));
        }
        while i < self.log.len()
            invariant
                i <= self.log@.len(),
                logv == self@.log,
                out@.map_values(|x: Receipt| x@) == receipts_for_tick(
                    logv.take(i as int),
                    tick@,
                    lo,
                    hi,
                ),
            decreases self.log@.len() - i,
        {
            proof {
                assert(logv.take(i + 1).drop_last() =~= logv.take(i as int));
                assert(logv.take(i + 1).last() == logv[i as int]);
                assert(logv[i as int] == self.log@[i as int]@);
            }
            let row = &self.log[i];
            if row.tick.same(tick) && lo <= row.height && row.height <= hi {
                out.push(row.receipt.duplicate());
                proof {
                    assert(out@.map_values(|x: Receipt| x@) =~= receipts_for_tick(
                        logv.take(i + 1),
                        tick@,
                        lo,
                        hi,
                    ));
                }
            }
            i = i + 1;
        }
        proof {
            assert(logv.take(self.log@.len() as int) =~= logv);
        }
        out
    }
}

} // verus!
