use bitcoin_wallet::address::{address_to_script, p2pkh_address, p2pkh_script_for_pubkey};
use bitcoin_wallet::broadcast::broadcast_outcome;
use bitcoin_wallet::cache::BalanceCache;
use bitcoin_wallet::config::{network_code, parse_network_code, Config};
use bitcoin_wallet::fees::{choose_fee_rate_millisat, estimated_fee, fee_rate_sat_per_vbyte};
use bitcoin_wallet::types::{Network, WalletError};
use sha2::Digest;

fn reference_address(version: u8, pubkey: &[u8]) -> String {
    let sha = sha2::Sha256::digest(pubkey);
    let hash = ripemd::Ripemd160::digest(sha);
    let mut payload = vec![version];
    payload.extend_from_slice(&hash);
    let check = sha2::Sha256::digest(sha2::Sha256::digest(&payload));
    payload.extend_from_slice(&check[0..4]);
    bs58::encode(payload).into_string()
}

#[test]
fn address_matches_an_independent_derivation() {
    let pubkey = vec![0x02; 33];
    assert_eq!(p2pkh_address(Network::Mainnet, &pubkey), reference_address(0x00, &pubkey));
    assert_eq!(p2pkh_address(Network::Testnet, &pubkey), reference_address(0x6f, &pubkey));
    assert_eq!(p2pkh_address(Network::Regtest, &pubkey), reference_address(0x6f, &pubkey));
}

#[test]
fn address_derivation_is_deterministic() {
    let pubkey = vec![0x03; 33];
    let a = p2pkh_address(Network::Testnet, &pubkey);
    let b = p2pkh_address(Network::Testnet, &pubkey);
    assert_eq!(a, b);
    // A different network gives a different address.
    assert_ne!(a, p2pkh_address(Network::Mainnet, &pubkey));
}

#[test]
fn address_decodes_back_to_its_locking_script() {
    let pubkey = vec![0x04; 65];
    let addr = p2pkh_address(Network::Mainnet, &pubkey);
    let script = address_to_script(&addr).expect("derived address must decode");
    assert_eq!(script, p2pkh_script_for_pubkey(&pubkey));
}

#[test]
fn the_all_zero_key_hash_address_decodes() {
    // Version 0x00 over twenty zero bytes is a well-known address.
    let script = address_to_script("1111111111111111111114oLvT2").expect("must decode");
    let mut expected = vec![0x76, 0xa9, 0x14];
    expected.extend_from_slice(&[0u8; 20]);
    expected.extend_from_slice(&[0x88, 0xac]);
    assert_eq!(script, expected);
}

#[test]
fn a_corrupted_address_is_refused() {
    let pubkey = vec![0x02; 33];
    let addr = p2pkh_address(Network::Mainnet, &pubkey);
    let mut chars: Vec<char> = addr.chars().collect();
    let last = chars.len() - 1;
    chars[last] = if chars[last] == '2' { '3' } else { '2' };
    let corrupted: String = chars.into_iter().collect();
    assert!(address_to_script(&corrupted).is_none());
    assert!(address_to_script("not an address!").is_none());
}

#[test]
fn fee_model_has_the_pinned_constants() {
    // (10 + 148 * 1 + 34 * 2) * 5 = 1130.
    assert_eq!(estimated_fee(1, 2, 5), Some(1130));
    // (10 + 148 * 2 + 34 * 2) * 1 = 374.
    assert_eq!(estimated_fee(2, 2, 1), Some(374));
    assert_eq!(estimated_fee(0, 2, 0), Some(0));
    assert_eq!(estimated_fee(u64::MAX, 2, 2), None);
}

#[test]
fn fee_rate_comes_from_the_median_percentile() {
    assert_eq!(choose_fee_rate_millisat(&Vec::new()), 2000);
    assert_eq!(choose_fee_rate_millisat(&vec![1000, 2000, 3000]), 2000);
    assert_eq!(choose_fee_rate_millisat(&vec![10, 20, 30, 40]), 30);
    assert_eq!(fee_rate_sat_per_vbyte(5000), 5);
    assert_eq!(fee_rate_sat_per_vbyte(999), 1);
    assert_eq!(fee_rate_sat_per_vbyte(0), 1);
}

#[test]
fn balance_cache_is_last_write_wins() {
    let mut cache = BalanceCache::new();
    assert_eq!(cache.read(), None);
    cache.record(123);
    assert_eq!(cache.read(), Some(123));
    cache.record(456);
    assert_eq!(cache.read(), Some(456));
}

#[test]
fn key_name_follows_the_network() {
    assert_eq!(Config::new(Network::Regtest).key_name, "dfx_test_key");
    assert_eq!(Config::new(Network::Testnet).key_name, "test_key_1");
    assert_eq!(Config::new(Network::Mainnet).key_name, "test_key_1");
    assert_eq!(Config::new(Network::Testnet).network, Network::Testnet);
}

#[test]
fn network_selection_survives_its_one_byte_encoding() {
    for n in [Network::Mainnet, Network::Testnet, Network::Regtest] {
        assert_eq!(parse_network_code(network_code(n)), Some(n));
    }
    assert_eq!(parse_network_code(9), None);
}

#[test]
fn broadcast_outcomes_distinguish_lost_answers_from_refusals() {
    let ok = broadcast_outcome(String::from("ab"), Ok(())).unwrap();
    assert!(ok.confirmed);
    assert_eq!(ok.txid, "ab");
    // A transport failure still hands the id back, flagged unconfirmed.
    let lost = broadcast_outcome(String::from("ab"), Err(WalletError::OracleUnavailable)).unwrap();
    assert!(!lost.confirmed);
    assert_eq!(lost.txid, "ab");
    // A validation refusal is a hard error.
    let refused = broadcast_outcome(String::from("ab"), Err(WalletError::RejectedByNetwork));
    assert_eq!(refused.err(), Some(WalletError::RejectedByNetwork));
    let fatal = broadcast_outcome(String::from("ab"), Err(WalletError::KeyUnavailable));
    assert_eq!(fatal.err(), Some(WalletError::KeyUnavailable));
}
