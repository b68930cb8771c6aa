use binance_core::encoding::{percent_encode, render_decimal, to_hex_lower, Decimal};
use binance_core::params::{ParamValue, ParameterSet};
use binance_core::sign::build_signed_query;
use hmac::Mac;

fn dec(neg: bool, mantissa: u64, scale: u32) -> Decimal {
    Decimal { neg, mantissa, scale }
}

#[test]
fn percent_encoding_keeps_unreserved_and_escapes_the_rest() {
    assert_eq!(percent_encode(b"AZaz09-_.~"), b"AZaz09-_.~".to_vec());
    assert_eq!(percent_encode(b"a b"), b"a%20b".to_vec());
    assert_eq!(percent_encode(b"1&2=3"), b"1%262%3D3".to_vec());
    // UTF-8 bytes are escaped byte by byte.
    assert_eq!(percent_encode("é".as_bytes()), b"%C3%A9".to_vec());
}

#[test]
fn decimal_rendering_is_exact_and_locale_free() {
    assert_eq!(render_decimal(&dec(false, 105, 1)), b"10.5".to_vec());
    assert_eq!(render_decimal(&dec(false, 74, 1)), b"7.4".to_vec());
    assert_eq!(render_decimal(&dec(false, 100, 0)), b"100".to_vec());
    assert_eq!(render_decimal(&dec(false, 5, 2)), b"0.05".to_vec());
    assert_eq!(render_decimal(&dec(true, 25, 1)), b"-2.5".to_vec());
    assert_eq!(render_decimal(&dec(false, 0, 0)), b"0".to_vec());
}

#[test]
fn hex_rendering_is_lowercase_two_digits_per_byte() {
    assert_eq!(to_hex_lower(&[0x00, 0x0f, 0xab, 0xff]), b"000fabff".to_vec());
}

#[test]
fn absent_optional_parameters_never_appear() {
    let mut p = ParameterSet::new();
    p.insert(b"symbol".to_vec(), ParamValue::Text(b"LTCUSDT".to_vec()));
    // The optional limit parameter is never inserted, so nothing encodes it.
    let q = p.encode();
    let text = String::from_utf8(q).unwrap();
    assert_eq!(text, "symbol=LTCUSDT");
    assert!(!text.contains("limit"));
    assert!(!text.contains("recvWindow"));
}

#[test]
fn encoded_keys_are_sorted_whatever_the_insertion_order() {
    let mut p = ParameterSet::new();
    p.insert(b"zulu".to_vec(), ParamValue::Unsigned(3));
    p.insert(b"alpha".to_vec(), ParamValue::Unsigned(1));
    p.insert(b"mike".to_vec(), ParamValue::Unsigned(2));
    assert_eq!(String::from_utf8(p.encode()).unwrap(), "alpha=1&mike=2&zulu=3");

    // Inserting under an existing key replaces the value, never duplicates.
    let mut p2 = ParameterSet::new();
    p2.insert(b"a".to_vec(), ParamValue::Unsigned(1));
    p2.insert(b"a".to_vec(), ParamValue::Unsigned(9));
    assert_eq!(String::from_utf8(p2.encode()).unwrap(), "a=9");
}

#[test]
fn boolean_casing_is_a_per_parameter_choice() {
    let mut p = ParameterSet::new();
    p.insert(
        b"closePosition".to_vec(),
        ParamValue::Flag { value: true, upper: true },
    );
    p.insert(
        b"dualSidePosition".to_vec(),
        ParamValue::Flag { value: true, upper: false },
    );
    p.insert(
        b"reduceOnly".to_vec(),
        ParamValue::Flag { value: false, upper: false },
    );
    assert_eq!(
        String::from_utf8(p.encode()).unwrap(),
        "closePosition=TRUE&dualSidePosition=true&reduceOnly=false"
    );
}

fn signed(symbol: &[u8], secret: &[u8], timestamp: u64) -> Vec<u8> {
    let mut p = ParameterSet::new();
    p.insert(b"symbol".to_vec(), ParamValue::Text(symbol.to_vec()));
    build_signed_query(p, &Some(secret.to_vec()), 1234, timestamp).unwrap()
}

#[test]
fn signing_is_deterministic_and_byte_sensitive() {
    let a = signed(b"LTCUSDT", b"secret", 12345);
    let b = signed(b"LTCUSDT", b"secret", 12345);
    assert_eq!(a, b);

    // Any changed input byte changes the signature.
    let sig_of = |q: &[u8]| {
        let text = String::from_utf8(q.to_vec()).unwrap();
        let at = text.find("&signature=").unwrap();
        text[at + "&signature=".len()..].to_string()
    };
    let changed_symbol = signed(b"LTCUSDU", b"secret", 12345);
    let changed_secret = signed(b"LTCUSDT", b"secres", 12345);
    let changed_time = signed(b"LTCUSDT", b"secret", 12346);
    assert_ne!(sig_of(&a), sig_of(&changed_symbol));
    assert_ne!(sig_of(&a), sig_of(&changed_secret));
    assert_ne!(sig_of(&a), sig_of(&changed_time));
}

#[test]
fn signature_is_the_real_hmac_of_exactly_the_payload() {
    let q = signed(b"LTCUSDT", b"secret", 12345);
    let text = String::from_utf8(q).unwrap();
    let at = text.find("&signature=").unwrap();
    let (payload, sig) = text.split_at(at);
    let sig = &sig["&signature=".len()..];
    assert_eq!(payload, "recvWindow=1234&symbol=LTCUSDT&timestamp=12345");

    let mut mac = hmac::Hmac::<sha2::Sha256>::new_from_slice(b"secret").unwrap();
    mac.update(payload.as_bytes());
    let tag = mac.finalize().into_bytes();
    let expected: String = tag.iter().map(|b| format!("{:02x}", b)).collect();
    assert_eq!(sig, expected);
}

#[test]
fn signing_without_a_secret_fails_with_authentication_error() {
    let mut p = ParameterSet::new();
    p.insert(b"symbol".to_vec(), ParamValue::Text(b"LTCUSDT".to_vec()));
    let r = build_signed_query(p, &None, 1234, 12345);
    assert_eq!(r, Err(binance_core::errors::ClientError::Authentication));
}
