//! Transaction read-model rows for presentation layers: a transaction
//! with its outputs resolved to addresses. The chain types appear here
//! as the plain values the core stores and compares — raw script bytes
//! and address text — never interpreted.
use vstd::prelude::*;
use crate::types::Txid;

verus! {

/// A transaction output together with the address its script resolves
/// to, when it resolves to one.
pub struct TxOutWithAddress {
    pub value: u64,
    pub script_pubkey: Vec<u8>,
    pub address: Option<String>,
}

/// A transaction input: the outpoint it spends, its script and sequence.
pub struct TxInput {
    pub previous_txid: Txid,
    pub previous_vout: u32,
    pub script_sig: Vec<u8>,
    pub sequence: u32,
}

/// Saturating addition on output values.
pub open spec fn sat_add64(a: u64, b: u64) -> u64 {
    if a + b <= u64::MAX {
        (a + b) as u64
    } else {
        u64::MAX
    }
}

/// The saturating sum of a sequence of output values.
pub open spec fn total_value(s: Seq<TxOutWithAddress>) -> u64
    decreases s.len(),
{
    if s.len() == 0 {
        0
    } else {
        sat_add64(total_value(s.drop_last()), s.last().value)
    }
}

/// A transaction with address-resolved outputs.
pub struct TransactionWithAddress {
    pub version: i32,
    pub lock_time: u32,
    pub input: Vec<TxInput>,
    pub output: Vec<TxOutWithAddress>,
}

impl TransactionWithAddress {
    /// The sum of the output values, saturating at the type's limit
    /// (sums of real outputs stay far below it).
    pub fn total_output_value(&self) -> (r: u64)
        ensures
            r == total_value(self.output@),
    {
        let ghost outs = self.output@;
        let mut total: u64 = 0;
        let mut i: usize = 0;
        proof {
            assert(outs.take(0) =~= Seq::<TxOutWithAddress>::empty());
        }
        while i < self.output.len()
            invariant
                i <= self.output@.len(),
                outs == self.output@,
                total == total_value(outs.take(i as int)),
            decreases self.output@.len() - i,
        {
            proof {
                assert(outs.take(i + 1).drop_last() =~= outs.take(i as int));
                assert(outs.take(i + 1).last() == outs[i as int]);
            }
            let v = self.output[i].value;
            total = if v <= u64::MAX - total {
                total + v
            } else {
                u64::MAX
            };
            i = i + 1;
        }
        proof {
            assert(outs.take(self.output@.len() as int) =~= outs);
        }
        total
    }
}

} // verus!
