use tsbin::keys::{derive_key, hash_passphrase};

#[test]
fn derive_key_known_answer() {
    let expected: [u8; 32] = [
        67, 56, 150, 132, 97, 204, 196, 180, 167, 165, 147, 84, 85, 69, 48, 209, 118, 9, 247, 243,
        109, 237, 252, 158, 134, 37, 8, 52, 154, 66, 72, 2,
    ];
    assert_eq!(derive_key("correct-horse"), expected);
}

#[test]
fn derive_key_empty_passphrase() {
    let expected: [u8; 32] = [
        240, 24, 114, 242, 237, 73, 5, 222, 254, 165, 199, 151, 243, 176, 168, 207, 77, 69, 23,
        157, 93, 233, 167, 122, 45, 245, 33, 144, 204, 114, 229, 57,
    ];
    assert_eq!(derive_key(""), expected);
}

#[test]
fn hash_of_empty_is_placeholder() {
    assert_eq!(hash_passphrase(""), "0000");
}

#[test]
fn hash_of_placeholder_is_placeholder() {
    assert_eq!(hash_passphrase("0000"), "0000");
}

#[test]
fn hash_is_base64_sha256() {
    assert_eq!(hash_passphrase("abc"), "ungWv48Bz+pBQUDeXa4iI7ADYaOWF3qctBD/YfIAFa0=");
    assert_eq!(hash_passphrase("correct-horse"), "ncpmbrVHMHFGMNFRkmSnvx7qrQC48u3JDT7L+tko0WM=");
}
