//! What the block explorer API answers: block listings, block details, the
//! network summary, and the once-a-day faucet.

use vstd::prelude::*;

use crate::store::KeyedStore;
use crate::text::{push_str, utf8_len_exceeds, zero_padded, zero_padded_string};
use vstd::utf8::encode_utf8;

verus! {

// ---------------------------------------------------------------------------
// Blocks
// ---------------------------------------------------------------------------

/// One entry of the block listing.
pub struct BlockSummary {
    pub height: u64,
    pub hash: String,
    pub tx_count: u64,
}

/// The hash shown for block `height` in the listing.
pub open spec fn listed_hash(height: nat) -> Seq<char> {
    "fake-hash-"@ + zero_padded(height, 8)
}

/// The label of block `height` in block details.
pub open spec fn block_label(height: nat) -> Seq<char> {
    "pappap-block-"@ + zero_padded(height, 8)
}

/// The hash shown as previous for block `height`: "genesis" for the first
/// block, the label of the block before otherwise.
pub open spec fn previous_label(height: nat) -> Seq<char> {
    if height == 1 {
        "genesis"@
    } else {
        block_label((height - 1) as nat)
    }
}

/// The details of each block after the first name the block before it as
/// its previous block.
pub proof fn block_details_are_linked(height: nat)
    requires
        height >= 1,
    ensures
        previous_label(height + 1) == block_label(height),
{
}

/// The listing of blocks 1 to `height`, in order, each with one transaction.
pub fn block_summaries(height: u64) -> (blocks: Vec<BlockSummary>)
    ensures
        blocks@.len() == height,
        forall|i: int|
            0 <= i < height ==> {
                &&& #[trigger] blocks@[i].height == i + 1
                &&& blocks@[i].hash@ == listed_hash((i + 1) as nat)
                &&& blocks@[i].tx_count == 1
            },
{
    let mut blocks: Vec<BlockSummary> = Vec::new();
    let mut i: u64 = 0;
    while i < height
        invariant
            i <= height,
            blocks@.len() == i,
            forall|j: int|
                0 <= j < i ==> {
                    &&& #[trigger] blocks@[j].height == j + 1
                    &&& blocks@[j].hash@ == listed_hash((j + 1) as nat)
                    &&& blocks@[j].tx_count == 1
                },
        decreases height - i,
    {
        let h: u64 = i + 1;
        let mut hash = "fake-hash-".to_owned();
        let digits = zero_padded_string(h, 8);
        push_str(&mut hash, digits.as_str());
        blocks.push(BlockSummary { height: h, hash, tx_count: 1 });
        i = h;
    }
    blocks
}

/// The details shown for one block.
pub struct BlockDetail {
    pub height: u64,
    pub hash: String,
    pub previous_hash: String,
    pub validator: String,
    /// The one transaction shown: its sender, kind and neuron count.
    pub tx_from: String,
    pub tx_kind: String,
    pub tx_neuron_count: u64,
}

fn block_label_string(height: u64) -> (s: String)
    ensures
        s@ == block_label(height as nat),
{
    let mut s = "pappap-block-".to_owned();
    let digits = zero_padded_string(height, 8);
    push_str(&mut s, digits.as_str());
    s
}

/// The details of block `height` (block heights start at 1).
pub fn block_detail(height: u64) -> (d: BlockDetail)
    requires
        height >= 1,
    ensures
        d.height == height,
        d.hash@ == block_label(height as nat),
        d.previous_hash@ == previous_label(height as nat),
        d.validator@ == "choithuti_GENESIS_001"@,
        d.tx_from@ == "MAPLE0276_GENESIS_001"@,
        d.tx_kind@ == "StakeNeuron"@,
        d.tx_neuron_count == 1000,
{
    let previous_hash = if height == 1 {
        "genesis".to_owned()
    } else {
        block_label_string(height - 1)
    };
    BlockDetail {
        height,
        hash: block_label_string(height),
        previous_hash,
        validator: "choithuti_GENESIS_001".to_owned(),
        tx_from: "MAPLE0276_GENESIS_001".to_owned(),
        tx_kind: "StakeNeuron".to_owned(),
        tx_neuron_count: 1000,
    }
}

/// The network summary.
pub struct NetworkStatus {
    pub network: String,
    pub total_nodes: u64,
    pub total_neurons: u64,
    pub block_height: u64,
    pub genesis_node: String,
    pub status: String,
}

/// The network summary the explorer publishes.
pub fn network_status() -> (s: NetworkStatus)
    ensures
        s.network@ == "Pappap AI Chain SNN Testnet 2025"@,
        s.total_nodes == 128,
        s.total_neurons == 128_000_000,
        s.block_height == 1842,
        s.genesis_node@ == "72.61.126.190:36331"@,
        s.status@ == "LIVING & SPIKING"@,
{
    NetworkStatus {
        network: "Pappap AI Chain SNN Testnet 2025".to_owned(),
        total_nodes: 128,
        total_neurons: 128_000_000,
        block_height: 1842,
        genesis_node: "72.61.126.190:36331".to_owned(),
        status: "LIVING & SPIKING".to_owned(),
    }
}

// ---------------------------------------------------------------------------
// Faucet
// ---------------------------------------------------------------------------

/// Seconds an address waits between two faucet claims.
pub open spec fn claim_cooldown() -> nat {
    86400
}

/// An address the faucet accepts: not empty, and at least 20 bytes long in
/// UTF-8.
pub open spec fn valid_faucet_address(address: Seq<char>) -> bool {
    address.len() > 0 && encode_utf8(address).len() >= 20
}

/// How the faucet answers a claim.
#[derive(PartialEq, Eq, Structural, Clone, Copy, Debug)]
pub enum FaucetOutcome {
    /// The address is empty or too short; nothing changes.
    InvalidAddress,
    /// The address claimed less than a day ago; nothing changes.
    TooSoon,
    /// The claim is granted and its time recorded.
    Granted,
}

/// The faucet's answer to `address` claiming at time `now`, given the last
/// claim time of each address.
pub open spec fn faucet_outcome(claims: Map<Seq<char>, u64>, address: Seq<char>, now: u64) -> FaucetOutcome {
    if !valid_faucet_address(address) {
        FaucetOutcome::InvalidAddress
    } else if claims.contains_key(address) && now - claims[address] < claim_cooldown() {
        FaucetOutcome::TooSoon
    } else {
        FaucetOutcome::Granted
    }
}

/// The claim times after `address` claimed at `now`.
pub open spec fn claims_after(claims: Map<Seq<char>, u64>, address: Seq<char>, now: u64) -> Map<
    Seq<char>,
    u64,
> {
    if faucet_outcome(claims, address, now) == FaucetOutcome::Granted {
        claims.insert(address, now)
    } else {
        claims
    }
}

/// A claim is answered only when the clock has not gone back for a valid
/// address that claimed before.
pub open spec fn claim_time_ok(claims: Map<Seq<char>, u64>, address: Seq<char>, now: u64) -> bool {
    valid_faucet_address(address) && claims.contains_key(address) ==> claims[address] <= now
}

/// The last claim time of each address that ever got faucet funds.
pub struct FaucetLedger {
    claims: KeyedStore<u64>,
}

impl View for FaucetLedger {
    type V = Map<Seq<char>, u64>;

    closed spec fn view(&self) -> Map<Seq<char>, u64> {
        self.claims@
    }
}

impl FaucetLedger {
    /// The ledger's internal invariant.
    pub closed spec fn wf(&self) -> bool {
        self.claims.wf()
    }

    /// A ledger with no claims.
    pub fn new() -> (l: Self)
        ensures
            l.wf(),
            l@ == Map::<Seq<char>, u64>::empty(),
    {
        FaucetLedger { claims: KeyedStore::new() }
    }

    /// When `address` last got faucet funds, if ever.
    pub fn last_claim(&self, address: &str) -> (r: Option<u64>)
        requires
            self.wf(),
        ensures
            r is None <==> !self@.contains_key(address@),
            r matches Some(t) ==> t == self@[address@],
    {
        match self.claims.get(address) {
            Some(t) => Some(*t),
            None => None,
        }
    }

    /// Answers `address` claiming faucet funds at time `now` (in seconds) and
    /// records a granted claim.
    pub fn claim(&mut self, address: &str, now: u64) -> (outcome: FaucetOutcome)
        requires
            old(self).wf(),
            claim_time_ok(old(self)@, address@, now),
        ensures
            final(self).wf(),
            outcome == faucet_outcome(old(self)@, address@, now),
            final(self)@ == claims_after(old(self)@, address@, now),
    {
        if address.is_empty() || !utf8_len_exceeds(address, 19) {
            return FaucetOutcome::InvalidAddress;
        }
        if let Some(last) = self.last_claim(address) {
            if now - last < 86400 {
                return FaucetOutcome::TooSoon;
            }
        }
        self.claims.insert(address.to_owned(), now);
        FaucetOutcome::Granted
    }
}

/// Once an address is granted, it is refused for the next 24 hours and
/// granted again from then on; other addresses are not affected.
pub proof fn faucet_once_a_day(
    claims: Map<Seq<char>, u64>,
    address: Seq<char>,
    now: u64,
    later: u64,
    other: Seq<char>,
)
    requires
        faucet_outcome(claims, address, now) == FaucetOutcome::Granted,
        now <= later,
        other != address,
    ensures
        later < now + claim_cooldown() ==> faucet_outcome(claims_after(claims, address, now), address, later)
            == FaucetOutcome::TooSoon,
        later >= now + claim_cooldown() ==> faucet_outcome(claims_after(claims, address, now), address, later)
            == FaucetOutcome::Granted,
        faucet_outcome(claims_after(claims, address, now), other, later) == faucet_outcome(claims, other, later),
{
}

/// A refused claim changes nothing.
pub proof fn refused_claim_changes_nothing(claims: Map<Seq<char>, u64>, address: Seq<char>, now: u64)
    requires
        faucet_outcome(claims, address, now) != FaucetOutcome::Granted,
    ensures
        claims_after(claims, address, now) == claims,
{
}

} // verus!
