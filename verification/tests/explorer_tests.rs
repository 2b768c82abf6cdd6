use pappap_chain::explorer::{block_detail, block_summaries, network_status, FaucetLedger, FaucetOutcome};

#[test]
fn listing_has_one_entry_per_block() {
    let blocks = block_summaries(3);
    assert_eq!(blocks.len(), 3);
    for (i, b) in blocks.iter().enumerate() {
        assert_eq!(b.height, i as u64 + 1);
        assert_eq!(b.tx_count, 1);
        assert_eq!(b.hash, format!("fake-hash-{:08}", i + 1));
    }
    assert!(block_summaries(0).is_empty());
}

#[test]
fn block_detail_links_previous_block() {
    let first = block_detail(1);
    assert_eq!(first.hash, "pappap-block-00000001");
    assert_eq!(first.previous_hash, "genesis");
    let d = block_detail(12);
    assert_eq!(d.height, 12);
    assert_eq!(d.hash, "pappap-block-00000012");
    assert_eq!(d.previous_hash, "pappap-block-00000011");
    assert_eq!(d.validator, "choithuti_GENESIS_001");
    assert_eq!(d.tx_from, "MAPLE0276_GENESIS_001");
    assert_eq!(d.tx_kind, "StakeNeuron");
    assert_eq!(d.tx_neuron_count, 1000);
    assert_eq!(block_detail(123456789).previous_hash, "pappap-block-123456788");
}

#[test]
fn network_summary() {
    let s = network_status();
    assert_eq!(s.network, "Pappap AI Chain SNN Testnet 2025");
    assert_eq!(s.total_nodes, 128);
    assert_eq!(s.total_neurons, 128_000_000);
    assert_eq!(s.block_height, 1842);
    assert_eq!(s.genesis_node, "72.61.126.190:36331");
    assert_eq!(s.status, "LIVING & SPIKING");
}

const ADDR: &str = "MAPLE0276_GENESIS_001_WALLET";

#[test]
fn faucet_rejects_short_addresses() {
    let mut l = FaucetLedger::new();
    assert_eq!(l.claim("", 100), FaucetOutcome::InvalidAddress);
    assert_eq!(l.claim("0123456789012345678", 100), FaucetOutcome::InvalidAddress);
    assert_eq!(l.last_claim("0123456789012345678"), None);
    assert_eq!(l.claim("01234567890123456789", 100), FaucetOutcome::Granted);
    // seven three-byte characters are 21 bytes: long enough
    assert_eq!(l.claim("ệệệệệệệ", 100), FaucetOutcome::Granted);
}

#[test]
fn faucet_once_per_day() {
    let mut l = FaucetLedger::new();
    assert_eq!(l.claim(ADDR, 1_000), FaucetOutcome::Granted);
    assert_eq!(l.last_claim(ADDR), Some(1_000));
    assert_eq!(l.claim(ADDR, 1_000 + 86_399), FaucetOutcome::TooSoon);
    assert_eq!(l.last_claim(ADDR), Some(1_000));
    assert_eq!(l.claim("ANOTHER_ADDRESS_0000000", 1_500), FaucetOutcome::Granted);
    assert_eq!(l.claim(ADDR, 1_000 + 86_400), FaucetOutcome::Granted);
    assert_eq!(l.last_claim(ADDR), Some(87_400));
    assert_eq!(l.last_claim("ANOTHER_ADDRESS_0000000"), Some(1_500));
}
