use ledger_core::digest::{decimal_text, digest_of_pair, digest_of_text, signed_decimal_text};

#[test]
fn decimal_form_of_unsigned_numbers() {
    assert_eq!(decimal_text(0), "0");
    assert_eq!(decimal_text(7), "7");
    assert_eq!(decimal_text(10), "10");
    assert_eq!(decimal_text(109), "109");
    assert_eq!(decimal_text(1700000000), "1700000000");
    assert_eq!(decimal_text(u64::MAX), "18446744073709551615");
}

#[test]
fn decimal_form_of_signed_numbers() {
    assert_eq!(signed_decimal_text(0), "0");
    assert_eq!(signed_decimal_text(42), "42");
    assert_eq!(signed_decimal_text(-1), "-1");
    assert_eq!(signed_decimal_text(-42), "-42");
    assert_eq!(signed_decimal_text(i64::MAX), "9223372036854775807");
    assert_eq!(signed_decimal_text(i64::MIN), "-9223372036854775808");
}

#[test]
fn decimal_form_agrees_with_the_standard_one() {
    let mut value: u64 = 1;
    for _ in 0..19 {
        assert_eq!(decimal_text(value), value.to_string());
        assert_eq!(decimal_text(value - 1), (value - 1).to_string());
        assert_eq!(signed_decimal_text(-(value as i64)), (-(value as i64)).to_string());
        value *= 10;
    }
}

#[test]
fn digest_of_a_text_is_sha256_of_its_bytes() {
    assert_eq!(
        hex::encode(digest_of_text("")),
        "e3b0c44298fc1c149afbf4c8996fb92427ae41e4649b934ca495991b7852b855"
    );
    assert_eq!(
        hex::encode(digest_of_text("abc")),
        "ba7816bf8f01cfea414140de5dae2223b00361a396177a9cb410ff61f20015ad"
    );
}

#[test]
fn digest_of_a_pair_is_that_of_the_joined_bytes() {
    assert_eq!(digest_of_pair(b"a", b"bc"), digest_of_text("abc"));
    assert_eq!(digest_of_pair(b"", b"abc"), digest_of_text("abc"));
    assert_eq!(digest_of_pair(b"abc", b""), digest_of_text("abc"));
    assert_ne!(digest_of_pair(b"bc", b"a"), digest_of_text("abc"));
}
