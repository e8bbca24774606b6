//! The balance store: holdings per (owner, ticker) pair. Viewed in
//! specifications as a total map from key pairs to `Funds`, absent pairs
//! reading as zero — balances are created lazily on first credit and
//! never deleted, so presence of a zero entry is unobservable.
use vstd::prelude::*;
use crate::tick::Tick;
use crate::types::Balance;
use crate::types::DRC20Error;
use crate::types::OwnerId;

verus! {

/// The two balance components of one (owner, ticker) pair.
#[verifier::ext_equal]
pub ghost struct Funds {
    pub overall: u128,
    pub transferable: u128,
}

impl Funds {
    pub open spec fn zero() -> Funds {
        Funds { overall: 0, transferable: 0 }
    }

    /// The transferable part never exceeds the overall holding.
    pub open spec fn wf(self) -> bool {
        self.transferable <= self.overall
    }

    /// The part spendable for new transfer inscriptions.
    pub open spec fn available(self) -> u128 {
        (self.overall - self.transferable) as u128
    }
}

/// One stored row: an owner and their balance for one ticker.
pub struct StoreEntry {
    pub owner: OwnerId,
    pub balance: Balance,
}

/// A store key: owner bytes and canonical ticker bytes.
pub open spec fn entry_key(e: StoreEntry) -> (Seq<u8>, Seq<u8>) {
    (e.owner@, e.balance@.tick)
}

pub open spec fn entry_funds(e: StoreEntry) -> Funds {
    Funds {
        overall: e.balance@.overall_balance,
        transferable: e.balance@.transferable_balance,
    }
}

/// The funds of key `k` in a sequence of rows, later rows shadowing
/// earlier ones and absence reading as zero.
pub open spec fn bal_at(s: Seq<StoreEntry>, k: (Seq<u8>, Seq<u8>)) -> Funds
    decreases s.len(),
{
    if s.len() == 0 {
        Funds::zero()
    } else if entry_key(s.last()) == k {
        entry_funds(s.last())
    } else {
        bal_at(s.drop_last(), k)
    }
}

/// No row carries key `k`, so its funds read as zero.
pub proof fn lemma_bal_at_absent(s: Seq<StoreEntry>, k: (Seq<u8>, Seq<u8>))
    requires
        forall|i: int| 0 <= i < s.len() ==> entry_key(s[i]) != k,
    ensures
        bal_at(s, k) == Funds::zero(),
    decreases s.len(),
{
    if s.len() > 0 {
        lemma_bal_at_absent(s.drop_last(), k);
    }
}

/// Rows carry pairwise distinct keys.
pub open spec fn distinct_keys(s: Seq<StoreEntry>) -> bool {
    forall|i: int, j: int| 0 <= i < j < s.len() ==> entry_key(s[i]) != entry_key(s[j])
}

/// Replacing the row at `i` by one with the same key replaces just that
/// key's funds.
pub proof fn lemma_bal_at_update(s: Seq<StoreEntry>, i: int, e: StoreEntry, k: (Seq<u8>, Seq<u8>))
    requires
        distinct_keys(s),
        0 <= i < s.len(),
        entry_key(e) == entry_key(s[i]),
    ensures
        bal_at(s.update(i, e), k) == (if k == entry_key(e) {
            entry_funds(e)
        } else {
            bal_at(s, k)
        }),
    decreases s.len(),
{
    let s2 = s.update(i, e);
    if i == s.len() - 1 {
        assert(s2.last() == e);
        assert(s2.drop_last() =~= s.drop_last());
    } else {
        assert(s2.last() == s.last());
        assert(s2.drop_last() =~= s.drop_last().update(i, e));
        lemma_bal_at_update(s.drop_last(), i, e, k);
        if entry_key(s.last()) == k {
            assert(k != entry_key(e));
        }
    }
}

/// The per-owner balance store.
pub struct BalanceStore {
    entries: Vec<StoreEntry>,
}

impl BalanceStore {
    /// The store as a total map: every (owner, ticker) pair has funds,
    /// zero unless a credit created the row.
    pub closed spec fn view(&self) -> Map<(Seq<u8>, Seq<u8>), Funds> {
        Map::new(|k: (Seq<u8>, Seq<u8>)| true, |k: (Seq<u8>, Seq<u8>)| bal_at(self.entries@, k))
    }

    /// Rows are sound and keyed pairwise distinctly.
    pub closed spec fn wf(&self) -> bool {
        &&& distinct_keys(self.entries@)
        &&& forall|i: int| 0 <= i < self.entries@.len() ==> entry_funds(
            #[trigger] self.entries@[i],
        ).wf()
    }

    /// The well-formedness the map view enjoys: the map is total — every
    /// pair has funds, zero until credited — and every pair's
    /// transferable part is within its overall part.
    pub open spec fn map_wf(bal: Map<(Seq<u8>, Seq<u8>), Funds>) -> bool {
        &&& forall|k: (Seq<u8>, Seq<u8>)| #[trigger] bal.dom().contains(k)
        &&& forall|k: (Seq<u8>, Seq<u8>)| (#[trigger] bal[k]).wf()
    }

    /// A well-formed store has a well-formed view.
    pub proof fn lemma_wf_view(&self)
        requires
            self.wf(),
        ensures
            Self::map_wf(self@),
    {
        assert forall|k: (Seq<u8>, Seq<u8>)| (#[trigger] self@[k]).wf() by {
            Self::lemma_bal_at_wf(self.entries@, k);
        }
        assert forall|k: (Seq<u8>, Seq<u8>)| #[trigger] self@.dom().contains(k) by {}
    }

    proof fn lemma_bal_at_wf(s: Seq<StoreEntry>, k: (Seq<u8>, Seq<u8>))
        requires
            forall|i: int| 0 <= i < s.len() ==> entry_funds(#[trigger] s[i]).wf(),
        ensures
            bal_at(s, k).wf(),
        decreases s.len(),
    {
        if s.len() > 0 {
            assert(entry_funds(s.last()).wf());
            Self::lemma_bal_at_wf(s.drop_last(), k);
        }
    }

    /// An empty store: every pair reads zero.
    pub fn new() -> (r: BalanceStore)
        ensures
            r.wf(),
            forall|k: (Seq<u8>, Seq<u8>)| r@[k] == Funds::zero(),
    {
        BalanceStore { entries: Vec::new() }
    }

    /// Index of the row for (owner, tick), if one exists.
    fn find(&self, owner: &OwnerId, tick: &Tick) -> (r: Option<usize>)
        ensures
            match r {
                Some(i) => {
                    &&& i < self.entries@.len()
                    &&& entry_key(self.entries@[i as int]) == (owner@, tick@)
                    &&& self@[(owner@, tick@)] == entry_funds(self.entries@[i as int])
                },
                None => {
                    &&& self@[(owner@, tick@)] == Funds::zero()
                    &&& forall|i: int| 0 <= i < self.entries@.len() ==> entry_key(
                        #[trigger] self.entries@[i],
                    ) != (owner@, tick@)
                },
            },
    {
        let ghost full = self.entries@;
        let ghost k = (owner@, tick@);
        proof {
            assert(full.take(full.len() as int) =~= full);
        }
        let mut i: usize = self.entries.len();
        while i > 0
            invariant
                i <= self.entries@.len(),
                full == self.entries@,
                k == (owner@, tick@),
                bal_at(full, k) == bal_at(full.take(i as int), k),
                forall|j: int| i <= j < full.len() ==> entry_key(#[trigger] full[j]) != k,
            decreases i,
        {
            let j = i - 1;
            let hit = self.entries[j].owner.same(owner) && self.entries[j].balance.tick.same(tick);
            proof {
                let pre = full.take(i as int);
                assert(pre.last() == full[j as int]);
                assert(pre.drop_last() =~= full.take(j as int));
                if hit {
                    assert(entry_key(full[j as int]) =~= k);
                    assert(bal_at(pre, k) == entry_funds(full[j as int]));
                } else {
                    assert(entry_key(full[j as int]) != k);
                    assert(bal_at(pre, k) == bal_at(full.take(j as int), k));
                }
            }
            if hit {
                return Some(j);
            }
            i = j;
        }
        proof {
            assert(full.take(0) =~= Seq::<StoreEntry>::empty());
        }
        None
    }

    /// The balance of (owner, tick): zero when no row exists, without
    /// allocating one.
    pub fn get(&self, owner: &OwnerId, tick: &Tick) -> (r: Balance)
        ensures
            r@.tick == tick@,
            r@.overall_balance == self@[(owner@, tick@)].overall,
            r@.transferable_balance == self@[(owner@, tick@)].transferable,
    {
        match self.find(owner, tick) {
            Some(i) => Balance {
                tick: tick.duplicate(),
                overall_balance: self.entries[i].balance.overall_balance,
                transferable_balance: self.entries[i].balance.transferable_balance,
            },
            None => Balance::new(tick),
        }
    }

    /// Stores `funds` for (owner, tick), creating the row if absent.
    /// The one private mutator: every public mutation goes through it.
    fn put(&mut self, owner: &OwnerId, tick: &Tick, funds: &Balance) -> (r: ())
        requires
            old(self).wf(),
            funds@.tick == tick@,
            funds@.transferable_balance <= funds@.overall_balance,
        ensures
            final(self).wf(),
            final(self)@ == old(self)@.insert(
                (owner@, tick@),
                (Funds {
                    overall: funds@.overall_balance,
                    transferable: funds@.transferable_balance,
                }),
            ),
    {
        let ghost k = (owner@, tick@);
        let ghost pre = self.entries@;
        match self.find(owner, tick) {
            Some(i) => {
                let e = StoreEntry { owner: owner.duplicate(), balance: funds.duplicate() };
                self.entries.set(i, e);
                proof {
                    assert forall|k2: (Seq<u8>, Seq<u8>)| true implies bal_at(self.entries@, k2)
                        == (if k2 == k {
                        entry_funds(self.entries@[i as int])
                    } else {
                        bal_at(pre, k2)
                    }) by {
                        lemma_bal_at_update(pre, i as int, self.entries@[i as int], k2);
                    }
                    assert(self@ =~= old(self)@.insert(
                        k,
                        (Funds {
                            overall: funds@.overall_balance,
                            transferable: funds@.transferable_balance,
                        }),
                    ));
                    assert forall|a: int, b: int| 0 <= a < b < self.entries@.len() implies entry_key(
                        self.entries@[a],
                    ) != entry_key(self.entries@[b]) by {
                        assert(entry_key(pre[a]) != entry_key(pre[b]));
                    }
                }
            },
            None => {
                let e = StoreEntry { owner: owner.duplicate(), balance: funds.duplicate() };
                self.entries.push(e);
                proof {
                    assert(self.entries@.drop_last() =~= pre);
                    assert(self@ =~= old(self)@.insert(
                        k,
                        (Funds {
                            overall: funds@.overall_balance,
                            transferable: funds@.transferable_balance,
                        }),
                    ));
                }
            },
        }
    }

    /// Credits `amount` to the overall balance. A checked-add overflow is
    /// an invariant violation reported as `InternalError` (unreachable
    /// under correct supply caps); nothing changes then.
    pub fn credit_overall(&mut self, owner: &OwnerId, tick: &Tick, amount: u128) -> (r: Result<
        (),
        DRC20Error,
    >)
        requires
            old(self).wf(),
        ensures
            final(self).wf(),
            ({
                let b = old(self)@[(owner@, tick@)];
                if b.overall + amount <= u128::MAX {
                    r is Ok && final(self)@ == old(self)@.insert(
                        (owner@, tick@),
                        (Funds { overall: (b.overall + amount) as u128, transferable: b.transferable }),
                    )
                } else {
                    r == Err::<(), DRC20Error>(DRC20Error::InternalError) && final(self)@ == old(
                        self,
                    )@
                }
            }),
    {
        let cur = self.get(owner, tick);
        proof {
            self.lemma_wf_view();
        }
        if amount > u128::MAX - cur.overall_balance {
            return Err(DRC20Error::InternalError);
        }
        let next = Balance {
            tick: tick.duplicate(),
            overall_balance: cur.overall_balance + amount,
            transferable_balance: cur.transferable_balance,
        };
        self.put(owner, tick, &next);
        Ok(())
    }

    /// Debits `amount` from the overall balance; the applier's mint-undo
    /// path. Fails with `InternalError` when the debit would underflow or
    /// strand locked funds above the remaining overall balance.
    pub fn debit_overall(&mut self, owner: &OwnerId, tick: &Tick, amount: u128) -> (r: Result<
        (),
        DRC20Error,
    >)
        requires
            old(self).wf(),
        ensures
            final(self).wf(),
            ({
                let b = old(self)@[(owner@, tick@)];
                if amount <= b.overall && b.transferable <= b.overall - amount {
                    r is Ok && final(self)@ == old(self)@.insert(
                        (owner@, tick@),
                        (Funds { overall: (b.overall - amount) as u128, transferable: b.transferable }),
                    )
                } else {
                    r == Err::<(), DRC20Error>(DRC20Error::InternalError) && final(self)@ == old(
                        self,
                    )@
                }
            }),
    {
        let cur = self.get(owner, tick);
        if amount > cur.overall_balance || cur.transferable_balance > cur.overall_balance - amount {
            return Err(DRC20Error::InternalError);
        }
        let next = Balance {
            tick: tick.duplicate(),
            overall_balance: cur.overall_balance - amount,
            transferable_balance: cur.transferable_balance,
        };
        self.put(owner, tick, &next);
        Ok(())
    }

    /// Locks `amount` into the transferable balance. Fails with
    /// `InsufficientBalance` when `amount` exceeds the available part
    /// (overall minus transferable); nothing changes then.
    pub fn lock_transferable(&mut self, owner: &OwnerId, tick: &Tick, amount: u128) -> (r: Result<
        (),
        DRC20Error,
    >)
        requires
            old(self).wf(),
        ensures
            final(self).wf(),
            ({
                let b = old(self)@[(owner@, tick@)];
                if amount <= b.available() {
                    r is Ok && final(self)@ == old(self)@.insert(
                        (owner@, tick@),
                        (Funds { overall: b.overall, transferable: (b.transferable + amount) as u128 }),
                    )
                } else {
                    r == Err::<(), DRC20Error>(DRC20Error::InsufficientBalance) && final(self)@
                        == old(self)@
                }
            }),
    {
        let cur = self.get(owner, tick);
        proof {
            self.lemma_wf_view();
        }
        if amount > cur.overall_balance - cur.transferable_balance {
            return Err(DRC20Error::InsufficientBalance);
        }
        let next = Balance {
            tick: tick.duplicate(),
            overall_balance: cur.overall_balance,
            transferable_balance: cur.transferable_balance + amount,
        };
        self.put(owner, tick, &next);
        Ok(())
    }

    /// Unlocks `amount` from the transferable balance (a cancelled or
    /// returned transfer inscription). Fails with `InternalError` when
    /// more is unlocked than was locked.
    pub fn unlock_transferable(&mut self, owner: &OwnerId, tick: &Tick, amount: u128) -> (r: Result<
        (),
        DRC20Error,
    >)
        requires
            old(self).wf(),
        ensures
            final(self).wf(),
            ({
                let b = old(self)@[(owner@, tick@)];
                if amount <= b.transferable {
                    r is Ok && final(self)@ == old(self)@.insert(
                        (owner@, tick@),
                        (Funds { overall: b.overall, transferable: (b.transferable - amount) as u128 }),
                    )
                } else {
                    r == Err::<(), DRC20Error>(DRC20Error::InternalError) && final(self)@ == old(
                        self,
                    )@
                }
            }),
    {
        let cur = self.get(owner, tick);
        proof {
            self.lemma_wf_view();
        }
        if amount > cur.transferable_balance {
            return Err(DRC20Error::InternalError);
        }
        let next = Balance {
            tick: tick.duplicate(),
            overall_balance: cur.overall_balance,
            transferable_balance: cur.transferable_balance - amount,
        };
        self.put(owner, tick, &next);
        Ok(())
    }

    /// Re-locks `amount` into the transferable balance without touching
    /// the overall part; the applier's transfer-undo path. Fails with
    /// `InternalError` when the lock would exceed the overall balance.
    pub fn relock_transferable(&mut self, owner: &OwnerId, tick: &Tick, amount: u128) -> (r: Result<
        (),
        DRC20Error,
    >)
        requires
            old(self).wf(),
        ensures
            final(self).wf(),
            ({
                let b = old(self)@[(owner@, tick@)];
                if b.transferable + amount <= b.overall {
                    r is Ok && final(self)@ == old(self)@.insert(
                        (owner@, tick@),
                        (Funds { overall: b.overall, transferable: (b.transferable + amount) as u128 }),
                    )
                } else {
                    r == Err::<(), DRC20Error>(DRC20Error::InternalError) && final(self)@ == old(
                        self,
                    )@
                }
            }),
    {
        let cur = self.get(owner, tick);
        proof {
            self.lemma_wf_view();
        }
        if amount > cur.overall_balance - cur.transferable_balance {
            return Err(DRC20Error::InternalError);
        }
        let next = Balance {
            tick: tick.duplicate(),
            overall_balance: cur.overall_balance,
            transferable_balance: cur.transferable_balance + amount,
        };
        self.put(owner, tick, &next);
        Ok(())
    }

    /// Moves `amount` of locked funds from one owner to another: the
    /// sender loses it from both components, the receiver gains it
    /// overall. A self-move only unlocks, leaving the net balance alone.
    /// Fails with `InsufficientBalance` when the sender's transferable
    /// balance is short, and `InternalError` when crediting the receiver
    /// would overflow; nothing changes on failure.
    pub fn move_transfer(
        &mut self,
        from: &OwnerId,
        to: &OwnerId,
        tick: &Tick,
        amount: u128,
    ) -> (r: Result<(), DRC20Error>)
        requires
            old(self).wf(),
        ensures
            final(self).wf(),
            ({
                let bf = old(self)@[(from@, tick@)];
                let bt = old(self)@[(to@, tick@)];
                if bf.transferable < amount {
                    r == Err::<(), DRC20Error>(DRC20Error::InsufficientBalance) && final(self)@
                        == old(self)@
                } else if from@ == to@ {
                    r is Ok && final(self)@ == old(self)@.insert(
                        (from@, tick@),
                        (Funds {
                            overall: bf.overall,
                            transferable: (bf.transferable - amount) as u128,
                        }),
                    )
                } else if bt.overall + amount <= u128::MAX {
                    r is Ok && final(self)@ == old(self)@.insert(
                        (from@, tick@),
                        (Funds {
                            overall: (bf.overall - amount) as u128,
                            transferable: (bf.transferable - amount) as u128,
                        }),
                    ).insert(
                        (to@, tick@),
                        (Funds { overall: (bt.overall + amount) as u128, transferable: bt.transferable }),
                    )
                } else {
                    r == Err::<(), DRC20Error>(DRC20Error::InternalError) && final(self)@ == old(
                        self,
                    )@
                }
            }),
    {
        let cur_from = self.get(from, tick);
        proof {
            self.lemma_wf_view();
        }
        if cur_from.transferable_balance < amount {
            return Err(DRC20Error::InsufficientBalance);
        }
        if from.same(to) {
            let next = Balance {
                tick: tick.duplicate(),
                overall_balance: cur_from.overall_balance,
                transferable_balance: cur_from.transferable_balance - amount,
            };
            self.put(from, tick, &next);
            return Ok(());
        }
        let cur_to = self.get(to, tick);
        if amount > u128::MAX - cur_to.overall_balance {
            return Err(DRC20Error::InternalError);
        }
        let next_from = Balance {
            tick: tick.duplicate(),
            overall_balance: cur_from.overall_balance - amount,
            transferable_balance: cur_from.transferable_balance - amount,
        };
        self.put(from, tick, &next_from);
        let next_to = Balance {
            tick: tick.duplicate(),
            overall_balance: cur_to.overall_balance + amount,
            transferable_balance: cur_to.transferable_balance,
        };
        self.put(to, tick, &next_to);
        Ok(())
    }
}

} // verus!
