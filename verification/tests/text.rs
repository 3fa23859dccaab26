use qonvert::text::{parse_u64, push_text};

#[test]
fn numbers_are_read_as_std_reads_them() {
    let samples = [
        "0", "1", "9", "10", "42", "007", "+5", "+0", "+", "", "-", "-0", "-5", "++1", "+-1",
        "1+", " 1", "1 ", "1_000", "0x10", "1e3", "١٢٣", "12\u{a0}", "٣", "1２",
        "18446744073709551615", "18446744073709551616", "18446744073709551625",
        "99999999999999999999999", "000000000000000000000000000000012",
        "+18446744073709551615", "1844674407370955161", "18446744073709551609",
        "18446744073709551610", "null", "N/A", "12.0",
    ];
    for sample in samples {
        assert_eq!(parse_u64(sample), sample.parse::<u64>().ok(), "sample {:?}", sample);
    }
}

#[test]
fn numbers_have_their_exact_values() {
    assert_eq!(parse_u64("1234567890"), Some(1234567890));
    assert_eq!(parse_u64("18446744073709551615"), Some(u64::MAX));
    assert_eq!(parse_u64("18446744073709551616"), None);
    assert_eq!(parse_u64("+12"), Some(12));
    assert_eq!(parse_u64(""), None);
}

#[test]
fn every_small_number_is_read_back() {
    for n in 0..2000u64 {
        assert_eq!(parse_u64(&n.to_string()), Some(n));
    }
    for shift in 0..64 {
        let n = 1u64 << shift;
        assert_eq!(parse_u64(&n.to_string()), Some(n));
        assert_eq!(parse_u64(&(n - 1).to_string()), Some(n - 1));
    }
}

#[test]
fn text_is_added_at_the_end() {
    let mut list = vec!["a".to_string()];
    push_text(&mut list, "b");
    push_text(&mut list, "");
    assert_eq!(list, vec!["a".to_string(), "b".to_string(), "".to_string()]);
}
