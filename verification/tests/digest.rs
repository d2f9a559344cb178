use dfs_manager::digest::{id_from_digest, id_preimage_bytes, transaction_id};
use dfs_manager::text::decimal_string;

#[test]
fn decimal_string_writes_digits() {
    assert_eq!(decimal_string(0), "0");
    assert_eq!(decimal_string(7), "7");
    assert_eq!(decimal_string(10), "10");
    assert_eq!(decimal_string(1_700_000_000_000_000_000), "1700000000000000000");
    assert_eq!(decimal_string(u64::MAX), "18446744073709551615");
}

#[test]
fn preimage_is_fields_then_timestamp() {
    let bytes = id_preimage_bytes(
        &"group1".to_string(),
        &"user.near".to_string(),
        &"abc123".to_string(),
        &"QmTest".to_string(),
        42,
    );
    assert_eq!(bytes, b"group1user.nearabc123QmTest42".to_vec());
}

#[test]
fn id_from_digest_is_lowercase_hex() {
    assert_eq!(id_from_digest(&vec![0x00, 0x0f, 0xa0, 0xff, 0x1b]), "000fa0ff1b");
    assert_eq!(id_from_digest(&vec![]), "");
}

#[test]
fn transaction_id_is_sha256_in_hex() {
    // SHA-256 of the empty preimage plus "0" is the digest of the text "0".
    let id = transaction_id(&String::new(), &String::new(), &String::new(), &String::new(), 0);
    assert_eq!(id, "5feceb66ffc86f38d952786c6d696c79c2dbc239dd4e91b46729d73a27fb57e9");
    let id = transaction_id(
        &"a".to_string(),
        &"b".to_string(),
        &"c".to_string(),
        &String::new(),
        0,
    );
    assert_eq!(id.len(), 64);
    assert_ne!(id, "5feceb66ffc86f38d952786c6d696c79c2dbc239dd4e91b46729d73a27fb57e9");
}
