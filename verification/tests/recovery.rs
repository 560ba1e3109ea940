use edbrute::checkpoint::{encode_record, recover_best, RecoveryError};
use edbrute::keypair::{public_key_to_u64, Keypair};

fn valid_public_with_prefix(prefix: [u8; 8]) -> Vec<u8> {
    let mut bytes = vec![0u8; 32];
    bytes[..8].copy_from_slice(&prefix);
    for salt in 0..=65535u32 {
        bytes[8] = (salt & 0xff) as u8;
        bytes[9] = ((salt >> 8) & 0xff) as u8;
        if ed25519_dalek::PublicKey::from_bytes(&bytes).is_ok() {
            return bytes;
        }
    }
    panic!("no valid public key found for prefix");
}

fn record_with_metric(metric: u64, secret_fill: u8) -> Vec<u8> {
    let public = valid_public_with_prefix(metric.to_be_bytes());
    assert_eq!(public_key_to_u64(&public), metric);
    encode_record(&Keypair { public, secret: vec![secret_fill; 32] })
}

#[test]
fn empty_store_recovers_nothing() {
    let lines: Vec<Vec<u8>> = Vec::new();
    assert!(recover_best(&lines).unwrap().is_none());
}

#[test]
fn recovery_returns_the_maximum_metric() {
    let lines = vec![
        record_with_metric(5, 1),
        record_with_metric(12, 2),
        record_with_metric(3, 3),
        record_with_metric(12, 4),
    ];
    let best = recover_best(&lines).unwrap().unwrap();
    assert_eq!(public_key_to_u64(&best.public), 12);
    // on a tie the later record wins
    assert_eq!(best.secret, vec![4; 32]);
}

#[test]
fn recovery_of_a_single_record() {
    let lines = vec![record_with_metric(7, 9)];
    let best = recover_best(&lines).unwrap().unwrap();
    assert_eq!(public_key_to_u64(&best.public), 7);
    assert_eq!(best.secret, vec![9; 32]);
}

#[test]
fn one_malformed_record_fails_the_whole_recovery() {
    let lines = vec![
        record_with_metric(5, 1),
        b"not a record".to_vec(),
        record_with_metric(12, 2),
    ];
    assert!(matches!(recover_best(&lines), Err(RecoveryError::MissingSeparator)));

    let lines = vec![record_with_metric(5, 1), b"abc,00".to_vec()];
    assert!(matches!(recover_best(&lines), Err(RecoveryError::InvalidHex)));

    let lines = vec![record_with_metric(5, 1), b"ab,00".to_vec()];
    assert!(matches!(recover_best(&lines), Err(RecoveryError::InvalidKey)));
}
