use deltachat_channels::armor::has_decrypted_pgp_armor;

#[test]
fn test_has_decrypted_pgp_armor() {
    let data = b" -----BEGIN PGP MESSAGE-----";
    assert_eq!(has_decrypted_pgp_armor(data), true);

    let data = b"    \n-----BEGIN PGP MESSAGE-----";
    assert_eq!(has_decrypted_pgp_armor(data), true);

    let data = b"    -----BEGIN PGP MESSAGE---";
    assert_eq!(has_decrypted_pgp_armor(data), false);

    let data = b" -----BEGIN PGP MESSAGE-----";
    assert_eq!(has_decrypted_pgp_armor(data), true);

    let data = b"blas";
    assert_eq!(has_decrypted_pgp_armor(data), false);
}

#[test]
fn armor_without_blanks_and_with_tail() {
    assert!(has_decrypted_pgp_armor(b"-----BEGIN PGP MESSAGE-----"));
    assert!(has_decrypted_pgp_armor(b"\t\r\n\x00 -----BEGIN PGP MESSAGE-----\n\nabc"));
}

#[test]
fn armor_of_nothing_and_blanks() {
    assert!(!has_decrypted_pgp_armor(b""));
    assert!(!has_decrypted_pgp_armor(b"   \n  "));
    assert!(!has_decrypted_pgp_armor(b"x -----BEGIN PGP MESSAGE-----"));
    assert!(!has_decrypted_pgp_armor(b"-----BEGIN PGP MESSAGE----x"));
}
