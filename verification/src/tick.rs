//! Ticker identifiers: short token symbols compared case-insensitively.
//! A `Tick` stores the canonical (ASCII-lowercase) form of its bytes, so
//! that storage keys and equality all use the normalized form.
use vstd::prelude::*;

verus! {

/// ASCII lowercasing of one byte: the canonical form used for ticker keys.
pub open spec fn lower_byte(b: u8) -> u8 {
    if 65 <= b && b <= 90 {
        (b + 32) as u8
    } else {
        b
    }
}

/// Canonical form of a ticker's bytes: every byte ASCII-lowercased.
pub open spec fn normalized(s: Seq<u8>) -> Seq<u8> {
    s.map_values(|b: u8| lower_byte(b))
}

/// A ticker symbol, held in canonical form.
pub struct Tick {
    bytes: Vec<u8>,
}

impl Tick {
    /// The canonical byte sequence of this ticker.
    pub closed spec fn view(&self) -> Seq<u8> {
        self.bytes@
    }

    /// A `Tick` always holds bytes already in canonical form.
    pub open spec fn wf(&self) -> bool {
        normalized(self@) == self@
    }

    /// Builds a ticker from raw bytes, normalizing to canonical form.
    pub fn new(raw: &Vec<u8>) -> (t: Tick)
        ensures
            t@ == normalized(raw@),
            t.wf(),
    {
        let mut out: Vec<u8> = Vec::new();
        let mut i: usize = 0;
        while i < raw.len()
            invariant
                i <= raw.len(),
                out@ == normalized(raw@).take(i as int),
                normalized(out@) == out@,
            decreases raw.len() - i,
        {
            let b = raw[i];
            let low: u8 = if 65 <= b && b <= 90 { b + 32 } else { b };
            out.push(low);
            proof {
                assert(out@ =~= normalized(raw@).take(i + 1 as int));
                assert(normalized(out@) =~= out@);
            }
            i = i + 1;
        }
        proof {
            assert(out@ =~= normalized(raw@));
        }
        Tick { bytes: out }
    }

    /// The empty ticker, used where no ticker could be resolved.
    pub fn empty() -> (t: Tick)
        ensures
            t@ == Seq::<u8>::empty(),
            t.wf(),
    {
        let t = Tick { bytes: Vec::new() };
        proof {
            assert(normalized(t@) =~= t@);
        }
        t
    }

    /// The canonical bytes, for callers that need to display or store them.
    pub fn bytes(&self) -> (r: &Vec<u8>)
        ensures
            r@ == self@,
    {
        &self.bytes
    }

    /// Byte-for-byte equality of the canonical forms, i.e. the protocol's
    /// case-insensitive ticker equality.
    pub fn same(&self, other: &Tick) -> (r: bool)
        ensures
            r == (self@ == other@),
    {
        if self.bytes.len() != other.bytes.len() {
            proof {
                assert(self@ != other@);
            }
            return false;
        }
        let mut i: usize = 0;
        while i < self.bytes.len()
            invariant
                i <= self.bytes.len(),
                self.bytes.len() == other.bytes.len(),
                forall|j: int| 0 <= j < i ==> self@[j] == other@[j],
            decreases self.bytes.len() - i,
        {
            if self.bytes[i] != other.bytes[i] {
                return false;
            }
            i = i + 1;
        }
        proof {
            assert(self@ =~= other@);
        }
        true
    }

    /// An owned copy of this ticker.
    pub fn duplicate(&self) -> (t: Tick)
        ensures
            t@ == self@,
    {
        let mut out: Vec<u8> = Vec::new();
        let mut i: usize = 0;
        while i < self.bytes.len()
            invariant
                i <= self.bytes.len(),
                out@ == self@.take(i as int),
            decreases self.bytes.len() - i,
        {
            out.push(self.bytes[i]);
            proof {
                assert(out@ =~= self@.take(i + 1 as int));
            }
            i = i + 1;
        }
        proof {
            assert(out@ =~= self@);
        }
        Tick { bytes: out }
    }
}

} // verus!
