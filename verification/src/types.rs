//! Plain-value data model of the protocol: identifiers, balances,
//! operations, events, receipts and the error taxonomy.
//!
//! Identifiers coming from the chain (transaction ids, script-derived
//! owner identities, satpoints) are opaque to the core: it never
//! interprets them, only stores and compares them, so they are held here
//! as plain byte values.
use vstd::prelude::*;
use crate::tick::Tick;

verus! {

/// Copies a byte vector; the workhorse behind the identifier copies.
pub fn copy_bytes(v: &Vec<u8>) -> (r: Vec<u8>)
    ensures
        r@ == v@,
{
    let mut out: Vec<u8> = Vec::new();
    let mut i: usize = 0;
    while i < v.len()
        invariant
            i <= v.len(),
            out@ == v@.take(i as int),
        decreases v.len() - i,
    {
        out.push(v[i]);
        proof {
            assert(out@ =~= v@.take(i + 1 as int));
        }
        i = i + 1;
    }
    proof {
        assert(out@ =~= v@);
    }
    out
}

/// Byte-for-byte equality of two byte vectors.
pub fn bytes_eq(a: &Vec<u8>, b: &Vec<u8>) -> (r: bool)
    ensures
        r == (a@ == b@),
{
    if a.len() != b.len() {
        proof {
            assert(a@ != b@);
        }
        return false;
    }
    let mut i: usize = 0;
    while i < a.len()
        invariant
            i <= a.len(),
            a.len() == b.len(),
            forall|j: int| 0 <= j < i ==> a@[j] == b@[j],
        decreases a.len() - i,
    {
        if a[i] != b[i] {
            return false;
        }
        i = i + 1;
    }
    proof {
        assert(a@ =~= b@);
    }
    true
}

/// A transaction id, carried through the core as opaque bytes.
pub struct Txid {
    pub bytes: Vec<u8>,
}

impl Txid {
    pub closed spec fn view(&self) -> Seq<u8> {
        self.bytes@
    }

    pub fn new(bytes: Vec<u8>) -> (r: Txid)
        ensures
            r@ == bytes@,
    {
        Txid { bytes }
    }

    pub fn duplicate(&self) -> (r: Txid)
        ensures
            r@ == self@,
    {
        Txid { bytes: copy_bytes(&self.bytes) }
    }

    pub fn same(&self, other: &Txid) -> (r: bool)
        ensures
            r == (self@ == other@),
    {
        bytes_eq(&self.bytes, &other.bytes)
    }
}

/// An owner identity derived from a script or address; an opaque mapping
/// key to the core.
pub struct OwnerId {
    pub bytes: Vec<u8>,
}

impl OwnerId {
    pub closed spec fn view(&self) -> Seq<u8> {
        self.bytes@
    }

    pub fn new(bytes: Vec<u8>) -> (r: OwnerId)
        ensures
            r@ == bytes@,
    {
        OwnerId { bytes }
    }

    pub fn duplicate(&self) -> (r: OwnerId)
        ensures
            r@ == self@,
    {
        OwnerId { bytes: copy_bytes(&self.bytes) }
    }

    pub fn same(&self, other: &OwnerId) -> (r: bool)
        ensures
            r == (self@ == other@),
    {
        bytes_eq(&self.bytes, &other.bytes)
    }
}

/// An inscription id: the transaction that revealed it plus an index.
pub struct InscriptionId {
    pub txid: Txid,
    pub index: u32,
}

/// Mathematical value of an inscription id.
pub ghost struct InscriptionIdV {
    pub txid: Seq<u8>,
    pub index: u32,
}

impl InscriptionId {
    pub open spec fn view(&self) -> InscriptionIdV {
        InscriptionIdV { txid: self.txid@, index: self.index }
    }

    pub fn duplicate(&self) -> (r: InscriptionId)
        ensures
            r@ == self@,
    {
        InscriptionId { txid: self.txid.duplicate(), index: self.index }
    }
}

/// The location of a satoshi: an outpoint plus an offset inside it.
pub struct SatPoint {
    pub txid: Txid,
    pub vout: u32,
    pub offset: u64,
}

/// Mathematical value of a satpoint.
pub ghost struct SatPointV {
    pub txid: Seq<u8>,
    pub vout: u32,
    pub offset: u64,
}

impl SatPoint {
    pub open spec fn view(&self) -> SatPointV {
        SatPointV { txid: self.txid@, vout: self.vout, offset: self.offset }
    }

    pub fn duplicate(&self) -> (r: SatPoint)
        ensures
            r@ == self@,
    {
        SatPoint { txid: self.txid.duplicate(), vout: self.vout, offset: self.offset }
    }
}

/// The protocol's error taxonomy; every rejection is recorded in a receipt.
#[derive(Clone, Copy, PartialEq, Eq, Structural, Debug)]
pub enum DRC20Error {
    /// Deploy of a ticker that is already registered.
    DuplicateTicker,
    /// Deploy with a zero or unrepresentable max supply.
    InvalidSupply,
    /// Deploy with a zero per-mint limit, or one above the max supply.
    InvalidMintLimit,
    /// Operation referencing an unregistered ticker.
    TickerNotFound,
    /// Mint request above the ticker's per-mint limit.
    MintLimitExceeded,
    /// Mint on a ticker whose max supply is already fully minted.
    SupplyExhausted,
    /// Available or transferable balance too low for a lock or transfer.
    InsufficientBalance,
    /// Transfer whose inscribe-transfer could not be resolved.
    TransferInscriptionNotFound,
    /// Invariant violation (overflow, inconsistent bookkeeping); fatal.
    InternalError,
}

/// The four kinds of operation the protocol knows.
#[derive(Clone, Copy, PartialEq, Eq, Structural, Debug)]
pub enum OperationType {
    Deploy,
    Mint,
    InscribeTransfer,
    Transfer,
}

/// An owner's holdings of one ticker. `transferable_balance` is the part
/// locked into pending transfer inscriptions; it never exceeds
/// `overall_balance`.
pub struct Balance {
    pub tick: Tick,
    pub overall_balance: u128,
    pub transferable_balance: u128,
}

/// Mathematical value of a balance record.
pub ghost struct BalanceV {
    pub tick: Seq<u8>,
    pub overall_balance: u128,
    pub transferable_balance: u128,
}

impl Balance {
    pub open spec fn view(&self) -> BalanceV {
        BalanceV {
            tick: self.tick@,
            overall_balance: self.overall_balance,
            transferable_balance: self.transferable_balance,
        }
    }

    /// A fresh, empty balance for a ticker.
    pub fn new(tick: &Tick) -> (r: Balance)
        ensures
            r@.tick == tick@,
            r@.overall_balance == 0,
            r@.transferable_balance == 0,
    {
        Balance { tick: tick.duplicate(), overall_balance: 0u128, transferable_balance: 0u128 }
    }

    pub fn duplicate(&self) -> (r: Balance)
        ensures
            r@ == self@,
    {
        Balance {
            tick: self.tick.duplicate(),
            overall_balance: self.overall_balance,
            transferable_balance: self.transferable_balance,
        }
    }
}

/// A balance together with the transaction that last touched it; a
/// read-model row for presentation layers.
pub struct BalanceWithTxId {
    pub txid: Txid,
    pub balance: Balance,
}

/// A successful deploy, with the parameters actually registered.
pub struct DeployEvent {
    pub txid: Option<Txid>,
    pub vout: u32,
    pub deployed_by: OwnerId,
    pub supply: u128,
    pub limit_per_mint: u128,
    pub decimal: u8,
    pub tick: Tick,
}

/// A successful mint; `amount` is the amount actually credited, which a
/// near-exhausted supply may have capped below the request.
pub struct MintEvent {
    pub txid: Option<Txid>,
    pub vout: u32,
    pub to: OwnerId,
    pub tick: Tick,
    pub amount: u128,
    pub msg: Option<String>,
}

/// A successful inscribe-transfer: `amount` was locked for transfer.
pub struct InscribeTransferEvent {
    pub txid: Option<Txid>,
    pub to: OwnerId,
    pub vout: u32,
    pub tick: Tick,
    pub amount: u128,
}

/// A successful transfer of a previously inscribed amount.
pub struct TransferEvent {
    pub txid: Option<Txid>,
    pub from: OwnerId,
    pub to: OwnerId,
    pub vout: u32,
    pub tick: Tick,
    pub amount: u128,
}

/// What actually happened when an operation succeeded, with effective
/// values (a mint event carries the capped amount).
pub enum Event {
    Deploy(DeployEvent),
    Mint(MintEvent),
    InscribeTransfer(InscribeTransferEvent),
    Transfer(TransferEvent),
}

/// Mathematical value of an event.
pub ghost enum EventV {
    Deploy {
        txid: Option<Seq<u8>>,
        vout: u32,
        deployed_by: Seq<u8>,
        supply: u128,
        limit_per_mint: u128,
        decimal: u8,
        tick: Seq<u8>,
    },
    Mint {
        txid: Option<Seq<u8>>,
        vout: u32,
        to: Seq<u8>,
        tick: Seq<u8>,
        amount: u128,
        msg: Option<Seq<char>>,
    },
    InscribeTransfer { txid: Option<Seq<u8>>, to: Seq<u8>, vout: u32, tick: Seq<u8>, amount: u128 },
    Transfer {
        txid: Option<Seq<u8>>,
        from: Seq<u8>,
        to: Seq<u8>,
        vout: u32,
        tick: Seq<u8>,
        amount: u128,
    },
}

pub open spec fn view_opt_txid(t: Option<Txid>) -> Option<Seq<u8>> {
    match t {
        Some(x) => Some(x@),
        None => None,
    }
}

impl Event {
    pub open spec fn view(&self) -> EventV {
        match self {
            Event::Deploy(e) => EventV::Deploy {
                txid: view_opt_txid(e.txid),
                vout: e.vout,
                deployed_by: e.deployed_by@,
                supply: e.supply,
                limit_per_mint: e.limit_per_mint,
                decimal: e.decimal,
                tick: e.tick@,
            },
            Event::Mint(e) => EventV::Mint {
                txid: view_opt_txid(e.txid),
                vout: e.vout,
                to: e.to@,
                tick: e.tick@,
                amount: e.amount,
                msg: view_opt_msg(e.msg),
            },
            Event::InscribeTransfer(e) => EventV::InscribeTransfer {
                txid: view_opt_txid(e.txid),
                to: e.to@,
                vout: e.vout,
                tick: e.tick@,
                amount: e.amount,
            },
            Event::Transfer(e) => EventV::Transfer {
                txid: view_opt_txid(e.txid),
                from: e.from@,
                to: e.to@,
                vout: e.vout,
                tick: e.tick@,
                amount: e.amount,
            },
        }
    }
}

/// Mathematical value of an operation outcome.
pub open spec fn result_view(r: Result<Event, DRC20Error>) -> Result<EventV, DRC20Error> {
    match r {
        Ok(e) => Ok(e@),
        Err(e) => Err(e),
    }
}

pub open spec fn view_opt_msg(m: Option<String>) -> Option<Seq<char>> {
    match m {
        Some(x) => Some(x@),
        None => None,
    }
}

/// Copies an optional message.
pub fn dup_opt_msg(m: &Option<String>) -> (r: Option<String>)
    ensures
        view_opt_msg(r) == view_opt_msg(*m),
{
    match m {
        Some(x) => Some(x.clone()),
        None => None,
    }
}

/// Copies an optional transaction id.
pub fn dup_opt_txid(t: &Option<Txid>) -> (r: Option<Txid>)
    ensures
        view_opt_txid(r) == view_opt_txid(*t),
{
    match t {
        Some(x) => Some(x.duplicate()),
        None => None,
    }
}

impl Event {
    pub fn duplicate(&self) -> (r: Event)
        ensures
            r@ == self@,
    {
        match self {
            Event::Deploy(e) => Event::Deploy(
                DeployEvent {
                    txid: dup_opt_txid(&e.txid),
                    vout: e.vout,
                    deployed_by: e.deployed_by.duplicate(),
                    supply: e.supply,
                    limit_per_mint: e.limit_per_mint,
                    decimal: e.decimal,
                    tick: e.tick.duplicate(),
                },
            ),
            Event::Mint(e) => Event::Mint(
                MintEvent {
                    txid: dup_opt_txid(&e.txid),
                    vout: e.vout,
                    to: e.to.duplicate(),
                    tick: e.tick.duplicate(),
                    amount: e.amount,
                    msg: dup_opt_msg(&e.msg),
                },
            ),
            Event::InscribeTransfer(e) => Event::InscribeTransfer(
                InscribeTransferEvent {
                    txid: dup_opt_txid(&e.txid),
                    to: e.to.duplicate(),
                    vout: e.vout,
                    tick: e.tick.duplicate(),
                    amount: e.amount,
                },
            ),
            Event::Transfer(e) => Event::Transfer(
                TransferEvent {
                    txid: dup_opt_txid(&e.txid),
                    from: e.from.duplicate(),
                    to: e.to.duplicate(),
                    vout: e.vout,
                    tick: e.tick.duplicate(),
                    amount: e.amount,
                },
            ),
        }
    }
}

/// One operation's durable outcome: success event or typed rejection,
/// with the inscription bookkeeping that located it on chain.
pub struct Receipt {
    pub inscription_id: InscriptionId,
    pub inscription_number: i64,
    pub old_satpoint: SatPoint,
    pub new_satpoint: SatPoint,
    pub op: OperationType,
    pub from: OwnerId,
    pub to: OwnerId,
    pub result: Result<Event, DRC20Error>,
}

/// Mathematical value of a receipt.
pub ghost struct ReceiptV {
    pub inscription_id: InscriptionIdV,
    pub inscription_number: i64,
    pub old_satpoint: SatPointV,
    pub new_satpoint: SatPointV,
    pub op: OperationType,
    pub from: Seq<u8>,
    pub to: Seq<u8>,
    pub result: Result<EventV, DRC20Error>,
}

impl Receipt {
    pub open spec fn view(&self) -> ReceiptV {
        ReceiptV {
            inscription_id: self.inscription_id@,
            inscription_number: self.inscription_number,
            old_satpoint: self.old_satpoint@,
            new_satpoint: self.new_satpoint@,
            op: self.op,
            from: self.from@,
            to: self.to@,
            result: match &self.result {
                Ok(e) => Ok(e@),
                Err(e) => Err(*e),
            },
        }
    }
}

impl Receipt {
    pub fn duplicate(&self) -> (r: Receipt)
        ensures
            r@ == self@,
    {
        Receipt {
            inscription_id: self.inscription_id.duplicate(),
            inscription_number: self.inscription_number,
            old_satpoint: self.old_satpoint.duplicate(),
            new_satpoint: self.new_satpoint.duplicate(),
            op: self.op,
            from: self.from.duplicate(),
            to: self.to.duplicate(),
            result: match &self.result {
                Ok(e) => Ok(e.duplicate()),
                Err(e) => Err(*e),
            },
        }
    }
}

/// The resolution of a transfer: the ticker and locked amount of the
/// inscribe-transfer being spent, supplied by the caller that tracked
/// the inscription to this spend.
pub struct TransferRef {
    pub tick: Tick,
    pub amount: u128,
}

/// The payload of one incoming operation, as the engine evaluates it.
pub enum Operation {
    Deploy { tick: Tick, max_supply: u128, limit_per_mint: u128, decimals: u8 },
    Mint { tick: Tick, amount: u128 },
    InscribeTransfer { tick: Tick, amount: u128 },
    /// `None` when the referenced inscribe-transfer could not be resolved.
    Transfer { resolved: Option<TransferRef> },
}

/// Mathematical value of an operation payload.
pub ghost enum OperationV {
    Deploy { tick: Seq<u8>, max_supply: u128, limit_per_mint: u128, decimals: u8 },
    Mint { tick: Seq<u8>, amount: u128 },
    InscribeTransfer { tick: Seq<u8>, amount: u128 },
    Transfer { resolved: Option<(Seq<u8>, u128)> },
}

impl Operation {
    pub open spec fn view(&self) -> OperationV {
        match self {
            Operation::Deploy { tick, max_supply, limit_per_mint, decimals } => OperationV::Deploy {
                tick: tick@,
                max_supply: *max_supply,
                limit_per_mint: *limit_per_mint,
                decimals: *decimals,
            },
            Operation::Mint { tick, amount } => OperationV::Mint { tick: tick@, amount: *amount },
            Operation::InscribeTransfer { tick, amount } => OperationV::InscribeTransfer {
                tick: tick@,
                amount: *amount,
            },
            Operation::Transfer { resolved } => OperationV::Transfer {
                resolved: match resolved {
                    Some(r) => Some((r.tick@, r.amount)),
                    None => None,
                },
            },
        }
    }

    /// The kind of this operation, as recorded in its receipt.
    pub fn kind(&self) -> (k: OperationType)
        ensures
            k == self@.kind(),
    {
        match self {
            Operation::Deploy { .. } => OperationType::Deploy,
            Operation::Mint { .. } => OperationType::Mint,
            Operation::InscribeTransfer { .. } => OperationType::InscribeTransfer,
            Operation::Transfer { .. } => OperationType::Transfer,
        }
    }
}

impl OperationV {
    pub open spec fn kind(self) -> OperationType {
        match self {
            OperationV::Deploy { .. } => OperationType::Deploy,
            OperationV::Mint { .. } => OperationType::Mint,
            OperationV::InscribeTransfer { .. } => OperationType::InscribeTransfer,
            OperationV::Transfer { .. } => OperationType::Transfer,
        }
    }
}

/// A flattened, display-oriented projection of an event for presentation
/// layers, fields absent when not applicable to the event's kind. It is
/// a one-way, read-only view: nothing feeds it back into the core.
pub struct Drc20Event {
    pub event: OperationType,
    pub txid: Option<Txid>,
    pub vout: u32,
    pub from: Option<OwnerId>,
    pub to: Option<OwnerId>,
    pub amt: Option<u128>,
    pub tick: Tick,
    pub supply: Option<u128>,
    pub limit: Option<u128>,
    pub block: Option<u32>,
    pub timestamp: Option<usize>,
}

/// Mathematical value of a flattened event.
pub ghost struct Drc20EventV {
    pub event: OperationType,
    pub txid: Option<Seq<u8>>,
    pub vout: u32,
    pub from: Option<Seq<u8>>,
    pub to: Option<Seq<u8>>,
    pub amt: Option<u128>,
    pub tick: Seq<u8>,
    pub supply: Option<u128>,
    pub limit: Option<u128>,
    pub block: Option<u32>,
    pub timestamp: Option<usize>,
}

pub open spec fn view_opt_owner(o: Option<OwnerId>) -> Option<Seq<u8>> {
    match o {
        Some(x) => Some(x@),
        None => None,
    }
}

/// The flattening rule: which fields of the projection each event kind
/// fills, and with what.
pub open spec fn project_event(ev: EventV, block: Option<u32>, timestamp: Option<usize>) -> Drc20EventV {
    match ev {
        EventV::Deploy { txid, vout, deployed_by, supply, limit_per_mint, tick, .. } => Drc20EventV {
            event: OperationType::Deploy,
            txid,
            vout,
            from: None,
            to: Some(deployed_by),
            amt: None,
            tick,
            supply: Some(supply),
            limit: Some(limit_per_mint),
            block,
            timestamp,
        },
        EventV::Mint { txid, vout, to, tick, amount, .. } => Drc20EventV {
            event: OperationType::Mint,
            txid,
            vout,
            from: None,
            to: Some(to),
            amt: Some(amount),
            tick,
            supply: None,
            limit: None,
            block,
            timestamp,
        },
        EventV::InscribeTransfer { txid, to, vout, tick, amount } => Drc20EventV {
            event: OperationType::InscribeTransfer,
            txid,
            vout,
            from: None,
            to: Some(to),
            amt: Some(amount),
            tick,
            supply: None,
            limit: None,
            block,
            timestamp,
        },
        EventV::Transfer { txid, from, to, vout, tick, amount } => Drc20EventV {
            event: OperationType::Transfer,
            txid,
            vout,
            from: Some(from),
            to: Some(to),
            amt: Some(amount),
            tick,
            supply: None,
            limit: None,
            block,
            timestamp,
        },
    }
}

impl Drc20Event {
    pub open spec fn view(&self) -> Drc20EventV {
        Drc20EventV {
            event: self.event,
            txid: view_opt_txid(self.txid),
            vout: self.vout,
            from: view_opt_owner(self.from),
            to: view_opt_owner(self.to),
            amt: self.amt,
            tick: self.tick@,
            supply: self.supply,
            limit: self.limit,
            block: self.block,
            timestamp: self.timestamp,
        }
    }

    /// Flattens a successful event for display, tagging it with the
    /// block and timestamp the presentation layer knows.
    pub fn from_event(e: &Event, block: Option<u32>, timestamp: Option<usize>) -> (r: Drc20Event)
        ensures
            r@ == project_event(e@, block, timestamp),
    {
        match e {
            Event::Deploy(ev) => Drc20Event {
                event: OperationType::Deploy,
                txid: dup_opt_txid(&ev.txid),
                vout: ev.vout,
                from: None,
                to: Some(ev.deployed_by.duplicate()),
                amt: None,
                tick: ev.tick.duplicate(),
                supply: Some(ev.supply),
                limit: Some(ev.limit_per_mint),
                block,
                timestamp,
            },
            Event::Mint(ev) => Drc20Event {
                event: OperationType::Mint,
                txid: dup_opt_txid(&ev.txid),
                vout: ev.vout,
                from: None,
                to: Some(ev.to.duplicate()),
                amt: Some(ev.amount),
                tick: ev.tick.duplicate(),
                supply: None,
                limit: None,
                block,
                timestamp,
            },
            Event::InscribeTransfer(ev) => Drc20Event {
                event: OperationType::InscribeTransfer,
                txid: dup_opt_txid(&ev.txid),
                vout: ev.vout,
                from: None,
                to: Some(ev.to.duplicate()),
                amt: Some(ev.amount),
                tick: ev.tick.duplicate(),
                supply: None,
                limit: None,
                block,
                timestamp,
            },
            Event::Transfer(ev) => Drc20Event {
                event: OperationType::Transfer,
                txid: dup_opt_txid(&ev.txid),
                vout: ev.vout,
                from: Some(ev.from.duplicate()),
                to: Some(ev.to.duplicate()),
                amt: Some(ev.amount),
                tick: ev.tick.duplicate(),
                supply: None,
                limit: None,
                block,
                timestamp,
            },
        }
    }
}

/// One incoming operation with the inscription metadata that anchors it:
/// who it came from, who receives it, and where it sits on chain.
pub struct LedgerOperation {
    pub inscription_id: InscriptionId,
    pub inscription_number: i64,
    pub old_satpoint: SatPoint,
    pub new_satpoint: SatPoint,
    /// The prior owner (for a transfer, the original inscriber).
    pub from: OwnerId,
    /// The owner the operation acts for: deployer, mint or lock recipient,
    /// or transfer destination.
    pub to: OwnerId,
    pub op: Operation,
}

/// Mathematical value of an incoming operation.
pub ghost struct LedgerOperationV {
    pub inscription_id: InscriptionIdV,
    pub inscription_number: i64,
    pub old_satpoint: SatPointV,
    pub new_satpoint: SatPointV,
    pub from: Seq<u8>,
    pub to: Seq<u8>,
    pub op: OperationV,
}

impl LedgerOperation {
    pub open spec fn view(&self) -> LedgerOperationV {
        LedgerOperationV {
            inscription_id: self.inscription_id@,
            inscription_number: self.inscription_number,
            old_satpoint: self.old_satpoint@,
            new_satpoint: self.new_satpoint@,
            from: self.from@,
            to: self.to@,
            op: self.op@,
        }
    }
}

} // verus!
