use pappap_chain::chain::{landing_page_html, ChainState};
use pappap_chain::config::Config;
use pappap_chain::crypto::CryptoEngine;
use pappap_chain::digest::{hex_encode, sha256_hex};
use pappap_chain::text::{str_contains, zero_padded_string};
use pappap_chain::transaction::{Transaction, TransactionType};

#[test]
fn zero_padding_to_eight_digits() {
    assert_eq!(zero_padded_string(7, 8), "00000007");
    assert_eq!(zero_padded_string(0, 8), "00000000");
    assert_eq!(zero_padded_string(12345678, 8), "12345678");
    assert_eq!(zero_padded_string(123456789, 8), "123456789");
    assert_eq!(zero_padded_string(u64::MAX, 8), "18446744073709551615");
}

#[test]
fn substring_search() {
    assert!(str_contains("hello world", "lo w"));
    assert!(str_contains("abc", ""));
    assert!(!str_contains("abc", "abcd"));
    assert!(str_contains("Luật giao thông", "giao"));
    assert!(!str_contains("luật", "Luật"));
}

#[test]
fn hex_of_bytes() {
    assert_eq!(hex_encode(&[0x00, 0xab, 0xff, 0x10]), "00abff10");
    assert_eq!(hex_encode(&[]), "");
    let bytes: Vec<u8> = (0u8..=255).collect();
    assert_eq!(hex_encode(&bytes), hex::encode(&bytes));
}

#[test]
fn sha256_hex_known_values() {
    assert_eq!(
        sha256_hex(b"abc"),
        "ba7816bf8f01cfea414140de5dae2223b00361a396177a9cb410ff61f20015ad"
    );
    assert_eq!(
        sha256_hex(b""),
        "e3b0c44298fc1c149afbf4c8996fb92427ae41e4649b934ca495991b7852b855"
    );
    assert_eq!(sha256_hex(b"pappap").len(), 64);
}

#[test]
fn decrypt_undoes_encrypt() {
    let engine = CryptoEngine::new(&[7u8; 32]);
    for msg in [&b""[..], &b"hello"[..], &[0u8; 1000][..]] {
        let sealed = engine.encrypt(msg);
        assert_eq!(sealed.len(), msg.len() + 28);
        assert_eq!(engine.decrypt(&sealed), Ok(msg.to_vec()));
    }
}

#[test]
fn encrypt_uses_fresh_nonces() {
    let engine = CryptoEngine::new(&[1u8; 32]);
    let a = engine.encrypt(b"same message");
    let b = engine.encrypt(b"same message");
    assert_ne!(a, b);
    assert_eq!(engine.decrypt(&a), engine.decrypt(&b));
}

#[test]
fn decrypt_rejects_short_and_forged_data() {
    let engine = CryptoEngine::new(&[9u8; 32]);
    assert_eq!(engine.decrypt(&[0u8; 11]), Err(()));
    assert_eq!(engine.decrypt(&[]), Err(()));
    let mut sealed = engine.encrypt(b"payload");
    let last = sealed.len() - 1;
    sealed[last] ^= 1;
    assert_eq!(engine.decrypt(&sealed), Err(()));
    let other = CryptoEngine::new(&[8u8; 32]);
    assert_eq!(other.decrypt(&engine.encrypt(b"payload")), Err(()));
    // a nonce with less than a whole tag never authenticates
    for n in 12..28 {
        assert_eq!(engine.decrypt(&vec![0u8; n]), Err(()));
    }
}

#[test]
fn default_config_values() {
    let c = Config::default();
    assert!(!c.seed_node);
    assert_eq!(c.node_id, "pappap-node-001");
    assert_eq!(c.public_ip, "0.0.0.0");
    assert_eq!(c.port, 36331);
    assert!(!c.high_neuron_mode);
    assert_eq!(c.listen_addr.as_deref(), Some("0.0.0.0:36331"));
    assert_eq!(c.enable_mdns, Some(true));
}

#[test]
fn config_from_file_contents() {
    let mine = Config {
        seed_node: true,
        node_id: "n2".to_string(),
        public_ip: "1.2.3.4".to_string(),
        port: 1,
        high_neuron_mode: true,
        listen_addr: None,
        enable_mdns: None,
    };
    let empty = Config::from_contents("", Some(mine.clone()));
    assert_eq!(empty.node_id, "pappap-node-001");
    let broken = Config::from_contents("not = [toml", None);
    assert_eq!(broken.port, 36331);
    let parsed = Config::from_contents("seed_node = true", Some(mine));
    assert_eq!(parsed.node_id, "n2");
    assert_eq!(parsed.listen_addr, None);
}

#[test]
fn transaction_is_stamped_and_signed() {
    let t = Transaction::new("alice".to_string(), TransactionType::StakeNeuron { neuron_count: 5 })
        .expect("the clock reads after the Unix epoch");
    assert_eq!(t.from, "alice");
    assert_eq!(t.signature, "pappap-genesis-sig-2025");
    assert!(matches!(t.tx_type, TransactionType::StakeNeuron { neuron_count: 5 }));
    let now = std::time::SystemTime::now()
        .duration_since(std::time::UNIX_EPOCH)
        .unwrap()
        .as_secs();
    assert!(t.timestamp <= now && now - t.timestamp < 60);
    let s = Transaction::stamped(
        "bob".to_string(),
        TransactionType::Transfer { to: "carol".to_string(), amount: 10 },
        42,
    );
    assert_eq!(s.timestamp, 42);
    assert_eq!(s.signature, "pappap-genesis-sig-2025");
}

#[test]
fn chain_blocks_link_to_previous_hash() {
    let mut c = ChainState::genesis();
    assert_eq!(c.height(), 0);
    assert_eq!(c.last_hash(), "genesis-pappap-2025-vn");
    let (h1, prev1) = c.start_block();
    assert_eq!((h1, prev1.as_str()), (1, "genesis-pappap-2025-vn"));
    c.record_block("hash-one".to_string());
    let (h2, prev2) = c.start_block();
    assert_eq!((h2, prev2.as_str()), (2, "hash-one"));
    assert_eq!(c.height(), 2);
}

#[test]
fn landing_page_shows_height() {
    let page = landing_page_html(42);
    assert_eq!(
        page,
        format!(
            "<h1 style='text-align:center;margin-top:20%;font-family:Arial;color:#0066cc'>\n{0}PAPPAP AI CHAIN<br>GENESIS NODE VIETNAM<br><br>\n{0}Block Height: {1}<br>Spike Power: 0.999+</h1>",
            " ".repeat(36),
            42
        )
    );
}

#[test]
fn chain_after_several_blocks() {
    let mut c = ChainState::genesis();
    let mut prevs = vec![];
    for j in 1..=5u64 {
        let (h, prev) = c.start_block();
        assert_eq!(h, j);
        prevs.push(prev);
        c.record_block(format!("hash-{}", j));
    }
    assert_eq!(c.height(), 5);
    assert_eq!(c.last_hash(), "hash-5");
    assert_eq!(prevs[0], "genesis-pappap-2025-vn");
    for j in 1..5 {
        assert_eq!(prevs[j], format!("hash-{}", j));
    }
}

#[test]
fn transaction_from_clock_reading() {
    let t = Transaction::from_clock("dan".to_string(), TransactionType::UnstakeNeuron { neuron_count: 3 }, Some(1_700_000_000))
        .unwrap();
    assert_eq!(t.from, "dan");
    assert_eq!(t.timestamp, 1_700_000_000);
    assert_eq!(t.signature, "pappap-genesis-sig-2025");
    assert!(Transaction::from_clock("dan".to_string(), TransactionType::StakeNeuron { neuron_count: 1 }, None).is_none());
}

#[test]
fn encryption_under_a_given_nonce() {
    let engine = CryptoEngine::new(&[3u8; 32]);
    let nonce = [5u8; 12];
    let a = engine.encrypt_with_nonce(&nonce, b"block data");
    let b = engine.encrypt_with_nonce(&nonce, b"block data");
    assert_eq!(a, b);
    assert_eq!(&a[..12], &nonce[..]);
    assert_eq!(a.len(), 10 + 28);
    assert_eq!(engine.decrypt(&a), Ok(b"block data".to_vec()));
    assert_ne!(&a[12..22], &b"block data"[..]);
}
