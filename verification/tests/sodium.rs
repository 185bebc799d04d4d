use dnscrypt_relay::dns::base::{DNS_CRYPT_FULL_NONCE_SIZE, DNS_CRYPT_MAC_SIZE};
use libsodium_sys::{
    crypto_box_curve25519xchacha20poly1305_MACBYTES,
    crypto_box_curve25519xchacha20poly1305_NONCEBYTES,
};

#[test]
fn cipher_sizes_are_those_of_the_box_construction() {
    assert_eq!(
        DNS_CRYPT_FULL_NONCE_SIZE,
        crypto_box_curve25519xchacha20poly1305_NONCEBYTES as usize
    );
    assert_eq!(DNS_CRYPT_MAC_SIZE, crypto_box_curve25519xchacha20poly1305_MACBYTES as usize);
}
