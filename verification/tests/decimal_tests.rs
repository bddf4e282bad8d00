use data_engine::decimal::{dec_add, dec_new_zero, dec_sub, dec_to_string, parse_dec_str, Dec};

#[test]
fn parse_plain_and_fractional() {
    assert_eq!(parse_dec_str("2").unwrap(), Dec { units: 2, scale: 0 });
    assert_eq!(parse_dec_str("100.00").unwrap(), Dec { units: 10000, scale: 2 });
    assert_eq!(parse_dec_str("-3.5").unwrap(), Dec { units: -35, scale: 1 });
    assert_eq!(parse_dec_str("0.00000001").unwrap(), Dec { units: 1, scale: 8 });
    assert_eq!(parse_dec_str("007").unwrap(), Dec { units: 7, scale: 0 });
}

#[test]
fn parse_rejects_malformed_text() {
    assert!(parse_dec_str("").is_none());
    assert!(parse_dec_str("-").is_none());
    assert!(parse_dec_str(".5").is_none());
    assert!(parse_dec_str("5.").is_none());
    assert!(parse_dec_str("1.2.3").is_none());
    assert!(parse_dec_str("12a").is_none());
    assert!(parse_dec_str("1e5").is_none());
    // more fractional digits than the library carries
    assert!(parse_dec_str("0.1234567890123456789").is_none());
}

#[test]
fn addition_and_subtraction_are_exact() {
    let a = parse_dec_str("0.1").unwrap();
    let b = parse_dec_str("0.2").unwrap();
    let s = dec_add(a, b).unwrap();
    assert_eq!(dec_to_string(&s), "0.3");
    let d = dec_sub(parse_dec_str("1").unwrap(), parse_dec_str("0.25").unwrap()).unwrap();
    assert_eq!(dec_to_string(&d), "0.75");
}

#[test]
fn rendering_matches_the_scale() {
    assert_eq!(dec_to_string(&Dec { units: 5, scale: 0 }), "5");
    assert_eq!(dec_to_string(&Dec { units: 50, scale: 1 }), "5.0");
    assert_eq!(dec_to_string(&Dec { units: 5, scale: 2 }), "0.05");
    assert_eq!(dec_to_string(&Dec { units: -5, scale: 2 }), "-0.05");
    assert_eq!(dec_to_string(&dec_new_zero()), "0");
}

#[test]
fn sums_keep_the_larger_scale() {
    let a = parse_dec_str("2").unwrap();
    let b = parse_dec_str("3.00").unwrap();
    let s = dec_add(a, b).unwrap();
    assert_eq!(dec_to_string(&s), "5.00");
}

#[test]
fn overflow_is_reported() {
    let big = Dec { units: i128::MAX, scale: 0 };
    assert!(dec_add(big, Dec { units: 1, scale: 0 }).is_none());
    // rescaling to a larger scale can also leave the range
    assert!(dec_add(big, Dec { units: 1, scale: 18 }).is_none());
}
