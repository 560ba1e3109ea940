use edbrute::keypair::{keypair_from_bytes, public_key_to_u64};

fn valid_public_with_prefix(prefix: [u8; 8]) -> Vec<u8> {
    let mut bytes = vec![0u8; 32];
    bytes[..8].copy_from_slice(&prefix);
    for salt in 0..=65535u32 {
        bytes[8] = (salt & 0xff) as u8;
        bytes[9] = ((salt >> 8) & 0xff) as u8;
        if ed25519_dalek::PublicKey::from_bytes(&bytes).is_ok() {
            return bytes;
        }
    }
    panic!("no valid public key found for prefix");
}

#[test]
fn metric_reads_first_eight_bytes_big_endian() {
    let mut public = vec![0u8; 32];
    for i in 0..8 {
        public[i] = (i + 1) as u8;
    }
    assert_eq!(public_key_to_u64(&public), 0x0102030405060708);
}

#[test]
fn metric_of_all_zero_prefix_is_zero() {
    let public = vec![0u8; 32];
    assert_eq!(public_key_to_u64(&public), 0);
}

#[test]
fn metric_is_idempotent() {
    let public = valid_public_with_prefix([9, 8, 7, 6, 5, 4, 3, 2]);
    let first = public_key_to_u64(&public);
    let second = public_key_to_u64(&public);
    assert_eq!(first, second);
    assert_eq!(first, 0x0908070605040302);

    let pair = keypair_from_bytes(public, vec![1u8; 32]).unwrap();
    assert_eq!(pair.metric(), pair.metric());
    assert_eq!(pair.metric(), first);
}
