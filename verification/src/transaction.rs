//! Transactions between wallets.

use vstd::prelude::*;

verus! {

/// What a transaction does.
#[derive(Debug, Clone)]
pub enum TransactionType {
    Transfer { to: String, amount: u64 },
    StakeNeuron { neuron_count: u64 },
    UnstakeNeuron { neuron_count: u64 },
}

/// A transaction signed by its sender.
#[derive(Debug, Clone)]
pub struct Transaction {
    pub from: String,
    pub tx_type: TransactionType,
    /// Seconds since the Unix epoch when the transaction was made.
    pub timestamp: u64,
    /// The signature; for now every transaction carries the same placeholder.
    pub signature: String,
}

/// The signature every transaction carries for now.
pub open spec fn genesis_signature() -> Seq<char> {
    "pappap-genesis-sig-2025"@
}

/// Trusted: `SystemTime::now().duration_since(UNIX_EPOCH)` in whole seconds,
/// or nothing when the system clock reads before the Unix epoch. Nothing is
/// claimed of the value.
#[verifier::external_body]
fn unix_time_secs() -> Option<u64> {
    std::time::SystemTime::now().duration_since(std::time::UNIX_EPOCH).ok().map(|d| d.as_secs())
}

impl Transaction {
    /// A transaction from `from`, stamped with the current time; nothing when
    /// the system clock reads before the Unix epoch.
    pub fn new(from: String, tx_type: TransactionType) -> (t: Option<Self>)
        ensures
            t matches Some(t) ==> t.from == from && t.tx_type == tx_type && t.signature@
                == genesis_signature(),
    {
        Transaction::from_clock(from, tx_type, unix_time_secs())
    }

    /// A transaction from `from` stamped with the clock reading `now` (whole
    /// seconds since the Unix epoch; `None` when the clock reads before it):
    /// nothing when there is no reading.
    pub fn from_clock(from: String, tx_type: TransactionType, now: Option<u64>) -> (t: Option<Self>)
        ensures
            t is Some <==> now is Some,
            t matches Some(t) ==> t.from == from && t.tx_type == tx_type && t.timestamp == now->0
                && t.signature@ == genesis_signature(),
    {
        match now {
            Some(secs) => Some(Transaction::stamped(from, tx_type, secs)),
            None => None,
        }
    }

    /// A transaction from `from` made at `timestamp`.
    pub fn stamped(from: String, tx_type: TransactionType, timestamp: u64) -> (t: Self)
        ensures
            t.from == from,
            t.tx_type == tx_type,
            t.timestamp == timestamp,
            t.signature@ == genesis_signature(),
    {
        Transaction { from, tx_type, timestamp, signature: "pappap-genesis-sig-2025".to_owned() }
    }
}

} // verus!
