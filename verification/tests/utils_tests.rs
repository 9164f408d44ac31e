use dbwrap::utils::{bytes_to_hide_hex, debug_hash_data, sha2_hash256};

#[test]
fn sha256_of_abc() {
    let d = sha2_hash256(b"abc");
    assert_eq!(d.len(), 32);
    assert_eq!(bytes_to_hide_hex(&d, 32, 0, None), "0xba7816bf8f01cfea414140de5dae2223b00361a396177a9cb410ff61f20015ad");
}

#[test]
fn sha256_of_empty() {
    let d = sha2_hash256(b"");
    assert_eq!(d[0], 0xe3);
    assert_eq!(d[31], 0x55);
}

#[test]
fn hide_hex_hides_the_middle() {
    assert_eq!(bytes_to_hide_hex(&[1, 2, 3, 4], 1, 1, None), "0x01...04");
    assert_eq!(bytes_to_hide_hex(&[0xab, 0xcd, 0xef, 0x10, 0x99], 2, 1, Some("--")), "0xabcd--99");
    assert_eq!(bytes_to_hide_hex(&[1, 2, 3, 4], 0, 1, None), "0x...04");
    assert_eq!(bytes_to_hide_hex(&[1, 2, 3, 4], 1, 0, None), "0x01...");
}

#[test]
fn hide_hex_shows_all_when_covered() {
    assert_eq!(bytes_to_hide_hex(&[1, 2, 3, 4], 2, 2, None), "0x01020304");
    assert_eq!(bytes_to_hide_hex(&[1, 2, 3, 4], 3, 3, Some("??")), "0x01020304");
    assert_eq!(bytes_to_hide_hex(&[0xff], 10, 0, None), "0xff");
    assert_eq!(bytes_to_hide_hex(&[], 0, 0, None), "0x");
}

#[test]
fn debug_hash_data_shows_six_and_six() {
    assert_eq!(debug_hash_data(b"abc"), "0xba7816bf8f01...ff61f20015ad");
}
