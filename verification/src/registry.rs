//! The ticker registry: the immutable deploy parameters of every
//! registered ticker, plus its running `minted_supply`. Viewed in
//! specifications as a map from canonical ticker bytes to `TickerRec`.
use vstd::prelude::*;
use crate::tick::Tick;
use crate::types::DRC20Error;
use crate::types::OwnerId;
use crate::types::Txid;

verus! {

/// A registry entry: deploy parameters plus the running minted supply.
pub struct TickerInfo {
    pub tick: Tick,
    pub max_supply: u128,
    pub limit_per_mint: u128,
    pub decimals: u8,
    pub minted_supply: u128,
    pub deployer: OwnerId,
    pub deploy_txid: Txid,
    pub deploy_block: u64,
}

/// Mathematical value of a registry entry.
#[verifier::ext_equal]
pub ghost struct TickerRec {
    pub tick: Seq<u8>,
    pub max_supply: u128,
    pub limit_per_mint: u128,
    pub decimals: u8,
    pub minted_supply: u128,
    pub deployer: Seq<u8>,
    pub deploy_txid: Seq<u8>,
    pub deploy_block: u64,
}

impl TickerInfo {
    pub open spec fn view(&self) -> TickerRec {
        TickerRec {
            tick: self.tick@,
            max_supply: self.max_supply,
            limit_per_mint: self.limit_per_mint,
            decimals: self.decimals,
            minted_supply: self.minted_supply,
            deployer: self.deployer@,
            deploy_txid: self.deploy_txid@,
            deploy_block: self.deploy_block,
        }
    }

    pub fn duplicate(&self) -> (r: TickerInfo)
        ensures
            r@ == self@,
    {
        TickerInfo {
            tick: self.tick.duplicate(),
            max_supply: self.max_supply,
            limit_per_mint: self.limit_per_mint,
            decimals: self.decimals,
            minted_supply: self.minted_supply,
            deployer: self.deployer.duplicate(),
            deploy_txid: self.deploy_txid.duplicate(),
            deploy_block: self.deploy_block,
        }
    }
}

impl TickerRec {
    /// A sound registry entry: positive capped supply, a positive per-mint
    /// limit no larger than the supply, and a minted supply within it.
    pub open spec fn wf(self) -> bool {
        &&& self.max_supply > 0
        &&& self.decimals <= 18
        &&& self.max_supply <= supply_cap(self.decimals)
        &&& 0 < self.limit_per_mint <= self.max_supply
        &&& self.minted_supply <= self.max_supply
    }

    /// The supply still mintable.
    pub open spec fn remaining(self) -> u128 {
        (self.max_supply - self.minted_supply) as u128
    }
}

/// Ten to the power `d`, for the decimal scales the protocol admits.
pub open spec fn pow10(d: u8) -> u128 {
    if d == 0 { 1 }
    else if d == 1 { 10 }
    else if d == 2 { 100 }
    else if d == 3 { 1000 }
    else if d == 4 { 10000 }
    else if d == 5 { 100000 }
    else if d == 6 { 1000000 }
    else if d == 7 { 10000000 }
    else if d == 8 { 100000000 }
    else if d == 9 { 1000000000 }
    else if d == 10 { 10000000000 }
    else if d == 11 { 100000000000 }
    else if d == 12 { 1000000000000 }
    else if d == 13 { 10000000000000 }
    else if d == 14 { 100000000000000 }
    else if d == 15 { 1000000000000000 }
    else if d == 16 { 10000000000000000 }
    else if d == 17 { 100000000000000000 }
    else { 1000000000000000000 }
}

/// The largest max supply representable at scale `d`: amounts are stored
/// already scaled by `10^d`, so a supply above this cap could not be
/// expressed in 128 bits once scaled.
pub open spec fn supply_cap(d: u8) -> u128 {
    u128::MAX / pow10(d)
}

/// Executable counterpart of `pow10`.
pub fn pow10_exec(d: u8) -> (r: u128)
    requires
        d <= 18,
    ensures
        r == pow10(d),
{
    if d == 0 { 1 }
    else if d == 1 { 10 }
    else if d == 2 { 100 }
    else if d == 3 { 1000 }
    else if d == 4 { 10000 }
    else if d == 5 { 100000 }
    else if d == 6 { 1000000 }
    else if d == 7 { 10000000 }
    else if d == 8 { 100000000 }
    else if d == 9 { 1000000000 }
    else if d == 10 { 10000000000 }
    else if d == 11 { 100000000000 }
    else if d == 12 { 1000000000000 }
    else if d == 13 { 10000000000000 }
    else if d == 14 { 100000000000000 }
    else if d == 15 { 1000000000000000 }
    else if d == 16 { 10000000000000000 }
    else if d == 17 { 100000000000000000 }
    else { 1000000000000000000 }
}

/// The entry for ticker `t` in a sequence of registry entries, later
/// entries shadowing earlier ones (well-formed registries have no
/// duplicates, so shadowing never arises there).
pub open spec fn reg_at(s: Seq<TickerInfo>, t: Seq<u8>) -> Option<TickerRec>
    decreases s.len(),
{
    if s.len() == 0 {
        None
    } else if s.last()@.tick == t {
        Some(s.last()@)
    } else {
        reg_at(s.drop_last(), t)
    }
}

/// No entry carries ticker `t`, so lookup misses.
pub proof fn lemma_reg_at_absent(s: Seq<TickerInfo>, t: Seq<u8>)
    requires
        forall|i: int| 0 <= i < s.len() ==> s[i]@.tick != t,
    ensures
        reg_at(s, t) is None,
    decreases s.len(),
{
    if s.len() > 0 {
        lemma_reg_at_absent(s.drop_last(), t);
    }
}

/// A hit names an index; a miss means no entry carries the ticker.
pub proof fn lemma_reg_at_index(s: Seq<TickerInfo>, t: Seq<u8>)
    ensures
        reg_at(s, t) is Some ==> exists|i: int|
            0 <= i < s.len() && s[i]@.tick == t && reg_at(s, t) == Some(s[i]@),
        reg_at(s, t) is None ==> forall|i: int| 0 <= i < s.len() ==> s[i]@.tick != t,
        reg_at(s, t) is Some ==> reg_at(s, t)->Some_0.tick == t,
    decreases s.len(),
{
    if s.len() > 0 {
        lemma_reg_at_index(s.drop_last(), t);
        if reg_at(s, t) is None {
            assert forall|i: int| 0 <= i < s.len() implies s[i]@.tick != t by {
                if i < s.len() - 1 {
                    assert(s.drop_last()[i] == s[i]);
                }
            }
        }
        if s.last()@.tick != t && reg_at(s.drop_last(), t) is Some {
            let i = choose|i: int|
                0 <= i < s.drop_last().len() && s.drop_last()[i]@.tick == t && reg_at(
                    s.drop_last(),
                    t,
                ) == Some(s.drop_last()[i]@);
            assert(s[i]@.tick == t && reg_at(s, t) == Some(s[i]@));
        }
    }
}

/// Entries carry pairwise distinct tickers.
pub open spec fn distinct_ticks(s: Seq<TickerInfo>) -> bool {
    forall|i: int, j: int| 0 <= i < j < s.len() ==> s[i]@.tick != s[j]@.tick
}

/// Replacing the entry at `i` by one with the same ticker replaces just
/// that ticker's lookup result.
pub proof fn lemma_reg_at_update(s: Seq<TickerInfo>, i: int, e: TickerInfo, t: Seq<u8>)
    requires
        distinct_ticks(s),
        0 <= i < s.len(),
        e@.tick == s[i]@.tick,
    ensures
        reg_at(s.update(i, e), t) == (if t == e@.tick {
            Some(e@)
        } else {
            reg_at(s, t)
        }),
    decreases s.len(),
{
    let s2 = s.update(i, e);
    assert(s2.len() == s.len());
    if i == s.len() - 1 {
        assert(s2.last() == e);
        assert(s2.drop_last() =~= s.drop_last());
        if t != e@.tick {
            assert(reg_at(s2, t) == reg_at(s2.drop_last(), t));
        }
    } else {
        assert(s2.last() == s.last());
        assert(s2.drop_last() =~= s.drop_last().update(i, e));
        lemma_reg_at_update(s.drop_last(), i, e, t);
        if s.last()@.tick == t {
            assert(t != e@.tick);
        }
    }
}

/// Removing the entry at `i` removes just that ticker's lookup result.
pub proof fn lemma_reg_at_remove(s: Seq<TickerInfo>, i: int, t: Seq<u8>)
    requires
        distinct_ticks(s),
        0 <= i < s.len(),
    ensures
        reg_at(s.remove(i), t) == (if t == s[i]@.tick {
            None::<TickerRec>
        } else {
            reg_at(s, t)
        }),
    decreases s.len(),
{
    let s2 = s.remove(i);
    if i == s.len() - 1 {
        assert(s2 =~= s.drop_last());
        if t == s[i]@.tick {
            assert(forall|j: int| 0 <= j < s2.len() ==> s2[j]@.tick != t);
            lemma_reg_at_absent(s2, t);
        }
    } else {
        assert(s2.len() == s.len() - 1);
        assert(s2.last() == s.last());
        assert(s2.drop_last() =~= s.drop_last().remove(i));
        lemma_reg_at_remove(s.drop_last(), i, t);
    }
}

/// Which error, if any, a deploy request fails with against registry
/// view `reg`; `None` means the deploy is valid.
pub open spec fn deploy_error(
    reg: Map<Seq<u8>, TickerRec>,
    tick: Seq<u8>,
    max_supply: u128,
    limit_per_mint: u128,
    decimals: u8,
) -> Option<DRC20Error> {
    if reg.dom().contains(tick) {
        Some(DRC20Error::DuplicateTicker)
    } else if decimals > 18 {
        Some(DRC20Error::InvalidSupply)
    } else if max_supply == 0 {
        Some(DRC20Error::InvalidSupply)
    } else if max_supply > supply_cap(decimals) {
        Some(DRC20Error::InvalidSupply)
    } else if limit_per_mint == 0 {
        Some(DRC20Error::InvalidMintLimit)
    } else if limit_per_mint > max_supply {
        Some(DRC20Error::InvalidMintLimit)
    } else {
        None
    }
}

/// The amount a mint of `amount` actually credits: capped by the
/// remaining supply (the last mint gets the remainder).
pub open spec fn mint_credit(rec: TickerRec, amount: u128) -> u128 {
    if amount <= rec.remaining() {
        amount
    } else {
        rec.remaining()
    }
}

/// The registry of deployed tickers.
pub struct TickRegistry {
    entries: Vec<TickerInfo>,
}

impl TickRegistry {
    /// The registry as a map from canonical ticker bytes to entries.
    pub closed spec fn view(&self) -> Map<Seq<u8>, TickerRec> {
        Map::new(
            |t: Seq<u8>| reg_at(self.entries@, t) is Some,
            |t: Seq<u8>| reg_at(self.entries@, t)->Some_0,
        )
    }

    /// Every entry is sound, tickers are pairwise distinct.
    pub closed spec fn wf(&self) -> bool {
        &&& distinct_ticks(self.entries@)
        &&& forall|i: int| 0 <= i < self.entries@.len() ==> (#[trigger] self.entries@[i])@.wf()
    }

    /// The well-formedness the map view enjoys: every entry is sound and
    /// keyed by its own ticker.
    pub open spec fn map_wf(reg: Map<Seq<u8>, TickerRec>) -> bool {
        forall|t: Seq<u8>| #[trigger]
            reg.dom().contains(t) ==> reg[t].wf() && reg[t].tick == t
    }

    /// A well-formed registry has a well-formed view.
    pub proof fn lemma_wf_view(&self)
        requires
            self.wf(),
        ensures
            Self::map_wf(self@),
    {
        assert forall|t: Seq<u8>| #[trigger] self@.dom().contains(t) implies self@[t].wf()
            && self@[t].tick == t by {
            lemma_reg_at_index(self.entries@, t);
            let i = choose|i: int|
                0 <= i < self.entries@.len() && self.entries@[i]@.tick == t && reg_at(
                    self.entries@,
                    t,
                ) == Some(self.entries@[i]@);
            assert(self.entries@[i]@.wf());
        }
    }

    /// An empty registry.
    pub fn new() -> (r: TickRegistry)
        ensures
            r.wf(),
            r@ == Map::<Seq<u8>, TickerRec>::empty(),
    {
        let r = TickRegistry { entries: Vec::new() };
        proof {
            assert(r@ =~= Map::<Seq<u8>, TickerRec>::empty());
        }
        r
    }

    /// Index of the entry for `tick`, if one exists.
    fn find(&self, tick: &Tick) -> (r: Option<usize>)
        ensures
            match r {
                Some(i) => {
                    &&& i < self.entries@.len()
                    &&& self.entries@[i as int]@.tick == tick@
                    &&& self@.dom().contains(tick@)
                    &&& self@[tick@] == self.entries@[i as int]@
                },
                None => !self@.dom().contains(tick@),
            },
    {
        let ghost full = self.entries@;
        proof {
            assert(full.take(full.len() as int) =~= full);
        }
        let mut i: usize = self.entries.len();
        while i > 0
            invariant
                i <= self.entries@.len(),
                full == self.entries@,
                reg_at(full, tick@) == reg_at(full.take(i as int), tick@),
            decreases i,
        {
            let j = i - 1;
            if self.entries[j].tick.same(tick) {
                proof {
                    let pre = full.take(i as int);
                    assert(pre.last() == full[j as int]);
                    assert(reg_at(full, tick@) == Some(full[j as int]@));
                }
                return Some(j);
            }
            proof {
                let pre = full.take(i as int);
                assert(pre.last() == full[j as int]);
                assert(pre.drop_last() =~= full.take(j as int));
            }
            i = j;
        }
        proof {
            assert(full.take(0) =~= Seq::<TickerInfo>::empty());
        }
        None
    }

    /// Read-only, case-insensitive lookup.
    pub fn get(&self, tick: &Tick) -> (r: Option<&TickerInfo>)
        ensures
            match r {
                Some(info) => self@.dom().contains(tick@) && info@ == self@[tick@],
                None => !self@.dom().contains(tick@),
            },
    {
        match self.find(tick) {
            Some(i) => Some(&self.entries[i]),
            None => None,
        }
    }

    /// Registers a new ticker. Fails with `DuplicateTicker` when the
    /// ticker exists (case-insensitively), `InvalidSupply` when the max
    /// supply is zero or unrepresentable at `decimals`, and
    /// `InvalidMintLimit` when the per-mint limit is zero or above the
    /// max supply; on success the entry starts with zero minted supply.
    pub fn register(
        &mut self,
        tick: &Tick,
        max_supply: u128,
        limit_per_mint: u128,
        decimals: u8,
        deployer: &OwnerId,
        txid: &Txid,
        height: u64,
    ) -> (r: Result<(), DRC20Error>)
        requires
            old(self).wf(),
        ensures
            final(self).wf(),
            match deploy_error(old(self)@, tick@, max_supply, limit_per_mint, decimals) {
                Some(e) => r == Err::<(), DRC20Error>(e) && final(self)@ == old(self)@,
                None => r is Ok && final(self)@ == old(self)@.insert(
                    tick@,
                    (TickerRec {
                        tick: tick@,
                        max_supply,
                        limit_per_mint,
                        decimals,
                        minted_supply: 0,
                        deployer: deployer@,
                        deploy_txid: txid@,
                        deploy_block: height,
                    }),
                ),
            },
    {
        if self.find(tick).is_some() {
            return Err(DRC20Error::DuplicateTicker);
        }
        if decimals > 18 {
            return Err(DRC20Error::InvalidSupply);
        }
        if max_supply == 0 {
            return Err(DRC20Error::InvalidSupply);
        }
        let cap = u128::MAX / pow10_exec(decimals);
        if max_supply > cap {
            return Err(DRC20Error::InvalidSupply);
        }
        if limit_per_mint == 0 || limit_per_mint > max_supply {
            return Err(DRC20Error::InvalidMintLimit);
        }
        let info = TickerInfo {
            tick: tick.duplicate(),
            max_supply,
            limit_per_mint,
            decimals,
            minted_supply: 0u128,
            deployer: deployer.duplicate(),
            deploy_txid: txid.duplicate(),
            deploy_block: height,
        };
        let ghost pre = self.entries@;
        proof {
            lemma_reg_at_index(pre, tick@);
        }
        self.entries.push(info);
        proof {
            assert(self.entries@.drop_last() =~= pre);
            assert forall|t: Seq<u8>| true implies reg_at(self.entries@, t) == (if t == tick@ {
                Some(self.entries@.last()@)
            } else {
                reg_at(pre, t)
            }) by {}
            assert(self@ =~= old(self)@.insert(tick@, self.entries@.last()@));
        }
        Ok(())
    }

    /// Atomically advances `minted_supply`, crediting
    /// `min(amount, remaining)`. Fails with `TickerNotFound` when the
    /// ticker is unregistered and `SupplyExhausted` when nothing remains.
    pub fn record_mint(&mut self, tick: &Tick, amount: u128) -> (r: Result<u128, DRC20Error>)
        requires
            old(self).wf(),
        ensures
            final(self).wf(),
            !old(self)@.dom().contains(tick@) ==> r == Err::<u128, DRC20Error>(
                DRC20Error::TickerNotFound,
            ) && final(self)@ == old(self)@,
            old(self)@.dom().contains(tick@) && old(self)@[tick@].remaining() == 0 ==> r
                == Err::<u128, DRC20Error>(DRC20Error::SupplyExhausted) && final(self)@ == old(self)@,
            old(self)@.dom().contains(tick@) && old(self)@[tick@].remaining() > 0 ==> {
                let rec = old(self)@[tick@];
                let eff = mint_credit(rec, amount);
                r == Ok::<u128, DRC20Error>(eff) && final(self)@ == old(self)@.insert(
                    tick@,
                    (TickerRec { minted_supply: (rec.minted_supply + eff) as u128, ..rec }),
                )
            },
    {
        let idx = match self.find(tick) {
            Some(i) => i,
            None => {
                return Err(DRC20Error::TickerNotFound);
            },
        };
        let ghost pre = self.entries@;
        let entry = &self.entries[idx];
        proof {
            assert(entry@.wf());
        }
        if entry.minted_supply == entry.max_supply {
            return Err(DRC20Error::SupplyExhausted);
        }
        let remaining = entry.max_supply - entry.minted_supply;
        let eff: u128 = if amount <= remaining { amount } else { remaining };
        let mut updated = entry.duplicate();
        updated.minted_supply = updated.minted_supply + eff;
        let ghost updated_rec = updated@;
        self.entries.set(idx, updated);
        proof {
            assert forall|t: Seq<u8>| true implies reg_at(self.entries@, t) == (if t == tick@ {
                Some(updated_rec)
            } else {
                reg_at(pre, t)
            }) by {
                lemma_reg_at_update(pre, idx as int, self.entries@[idx as int], t);
            }
            assert(self@ =~= old(self)@.insert(tick@, updated_rec));
            assert forall|i: int, j: int| 0 <= i < j < self.entries@.len() implies self.entries@[i]@.tick
                != self.entries@[j]@.tick by {
                assert(pre[i]@.tick != pre[j]@.tick);
            }
        }
        Ok(eff)
    }

    /// Rolls `minted_supply` back by `amount`; the applier's mint-undo
    /// path. Fails with `InternalError` when the ticker is missing or
    /// less than `amount` was ever minted, which signals corrupted
    /// rollback bookkeeping.
    pub fn revert_mint(&mut self, tick: &Tick, amount: u128) -> (r: Result<(), DRC20Error>)
        requires
            old(self).wf(),
        ensures
            final(self).wf(),
            old(self)@.dom().contains(tick@) && amount <= old(self)@[tick@].minted_supply ==> {
                let rec = old(self)@[tick@];
                r is Ok && final(self)@ == old(self)@.insert(
                    tick@,
                    (TickerRec { minted_supply: (rec.minted_supply - amount) as u128, ..rec }),
                )
            },
            !(old(self)@.dom().contains(tick@) && amount <= old(self)@[tick@].minted_supply) ==> r
                == Err::<(), DRC20Error>(DRC20Error::InternalError) && final(self)@ == old(self)@,
    {
        let idx = match self.find(tick) {
            Some(i) => i,
            None => {
                return Err(DRC20Error::InternalError);
            },
        };
        let ghost pre = self.entries@;
        let entry = &self.entries[idx];
        proof {
            assert(entry@.wf());
        }
        if amount > entry.minted_supply {
            return Err(DRC20Error::InternalError);
        }
        let mut updated = entry.duplicate();
        updated.minted_supply = updated.minted_supply - amount;
        let ghost updated_rec = updated@;
        self.entries.set(idx, updated);
        proof {
            assert forall|t: Seq<u8>| true implies reg_at(self.entries@, t) == (if t == tick@ {
                Some(updated_rec)
            } else {
                reg_at(pre, t)
            }) by {
                lemma_reg_at_update(pre, idx as int, self.entries@[idx as int], t);
            }
            assert(self@ =~= old(self)@.insert(tick@, updated_rec));
            assert forall|i: int, j: int| 0 <= i < j < self.entries@.len() implies self.entries@[i]@.tick
                != self.entries@[j]@.tick by {
                assert(pre[i]@.tick != pre[j]@.tick);
            }
        }
        Ok(())
    }

    /// Removes a ticker's entry outright; the applier's deploy-undo path.
    /// Fails with `InternalError` when the ticker is not present, which
    /// signals corrupted rollback bookkeeping.
    pub fn unregister(&mut self, tick: &Tick) -> (r: Result<(), DRC20Error>)
        requires
            old(self).wf(),
        ensures
            final(self).wf(),
            old(self)@.dom().contains(tick@) ==> r is Ok && final(self)@ == old(self)@.remove(tick@),
            !old(self)@.dom().contains(tick@) ==> r == Err::<(), DRC20Error>(
                DRC20Error::InternalError,
            ) && final(self)@ == old(self)@,
    {
        let idx = match self.find(tick) {
            Some(i) => i,
            None => {
                return Err(DRC20Error::InternalError);
            },
        };
        let ghost pre = self.entries@;
        self.entries.remove(idx);
        proof {
            assert forall|t: Seq<u8>| true implies reg_at(self.entries@, t) == (if t == tick@ {
                None::<TickerRec>
            } else {
                reg_at(pre, t)
            }) by {
                lemma_reg_at_remove(pre, idx as int, t);
            }
            assert(self@ =~= old(self)@.remove(tick@));
            assert forall|i: int, j: int| 0 <= i < j < self.entries@.len() implies self.entries@[i]@.tick
                != self.entries@[j]@.tick by {
                let pi = if i < idx { i } else { i + 1 };
                let pj = if j < idx { j } else { j + 1 };
                assert(self.entries@[i] == pre[pi]);
                assert(self.entries@[j] == pre[pj]);
                assert(pre[pi]@.tick != pre[pj]@.tick);
            }
        }
        Ok(())
    }
}

} // verus!
