//! Checksum validators and XOR decryption.

use qemount::checksum::{adfs, get, ics, powertec, xor_decrypt};

#[test]
fn test_registry() {
    assert!(get("adfs").is_some());
    assert!(get("ics").is_some());
    assert!(get("powertec").is_some());
    assert!(get("unknown").is_none());
}

#[test]
fn test_xor_decrypt() {
    let data = b"Hello";
    let key = b"key";
    let encrypted = xor_decrypt(data, key);
    let decrypted = xor_decrypt(&encrypted, key);
    assert_eq!(decrypted, data);
}

#[test]
fn xor_decrypt_empty_key_is_identity() {
    let data = b"some bytes that should come back unchanged";
    let out = xor_decrypt(data, b"");
    assert_eq!(out.as_slice(), data.as_slice());
}

fn adfs_fixture() -> Vec<u8> {
    // An all-zero block folds to zero, so a zero checksum byte validates.
    vec![0u8; 512]
}

fn ics_fixture() -> Vec<u8> {
    let mut data = vec![0u8; 512];
    // sum(bytes[0..508]) + 0x50617274 over all-zero data is the seed itself.
    let stored: u32 = 0x50617274;
    data[508..512].copy_from_slice(&stored.to_le_bytes());
    data
}

fn powertec_fixture() -> Vec<u8> {
    let mut data = vec![0u8; 512];
    // seed 0x2a plus all-zero bytes.
    data[511] = 0x2a;
    data
}

#[test]
fn adfs_accepts_fixture_and_rejects_flips() {
    let data = adfs_fixture();
    assert!(adfs(&data));
    for i in 0..511 {
        let mut flipped = data.clone();
        flipped[i] ^= 0xff;
        assert!(!adfs(&flipped), "flip at {} accepted", i);
    }
}

#[test]
fn ics_accepts_fixture_and_rejects_flips() {
    let data = ics_fixture();
    assert!(ics(&data));
    for i in 0..512 {
        let mut flipped = data.clone();
        flipped[i] ^= 0xff;
        assert!(!ics(&flipped), "flip at {} accepted", i);
    }
}

#[test]
fn powertec_accepts_fixture_and_rejects_flips() {
    let data = powertec_fixture();
    assert!(powertec(&data));
    for i in 0..511 {
        let mut flipped = data.clone();
        flipped[i] ^= 0xff;
        assert!(!powertec(&flipped), "flip at {} accepted", i);
    }
}

#[test]
fn powertec_rejects_mbr_signature() {
    // Build a block whose sum would validate, but which carries the MBR
    // boot signature: it must be rejected on the signature alone.
    let mut data = vec![0u8; 512];
    data[510] = 0x55;
    data[0] = 0x2b;
    let mut sum: u8 = 0x2a;
    for &b in &data[..511] {
        sum = sum.wrapping_add(b);
    }
    assert_eq!(sum, 0xaa);
    data[511] = sum;
    assert!(!powertec(&data));
}

#[test]
fn adfs_rejects_short_input() {
    assert!(!adfs(&[0u8; 100]));
    assert!(!ics(&[0u8; 100]));
    assert!(!powertec(&[0u8; 100]));
}
