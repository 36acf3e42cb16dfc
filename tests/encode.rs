use barcode_generator::code128::{CODE128_PATTERNS, STOP_MODULES};
use barcode_generator::{auto_detect, ean13_check_digit, encode, is_valid, BarcodeFormat};

const ALL: [BarcodeFormat; 4] =
    [BarcodeFormat::Code128, BarcodeFormat::Code39, BarcodeFormat::Ean13, BarcodeFormat::UpcA];

fn runs(widths: &[u8]) -> Vec<bool> {
    let mut out = Vec::new();
    for (i, &w) in widths.iter().enumerate() {
        for _ in 0..w {
            out.push(i % 2 == 0);
        }
    }
    out
}

fn code128_expected(values: &[usize]) -> Vec<bool> {
    let mut out = vec![false; 10];
    for &v in values {
        out.extend(runs(&CODE128_PATTERNS[v]));
    }
    out.extend_from_slice(&STOP_MODULES);
    out.extend(vec![false; 10]);
    out
}

#[test]
fn empty_text_fails_for_every_format() {
    for f in ALL {
        assert!(encode("", f).is_none());
    }
}

#[test]
fn invalid_text_never_encodes() {
    let cases = ["héllo", "a*b", "12345678901234", "1234567890123", "12a", "~~", "ABC-12"];
    for text in cases {
        for f in ALL {
            if !is_valid(text, f) {
                assert!(encode(text, f).is_none(), "{} {:?}", text, f);
            }
        }
    }
}

#[test]
fn code128_quiet_zones_are_light() {
    for text in ["Hello, World!", "1234", "AB1234", "12345", " ", "~"] {
        let b = encode(text, BarcodeFormat::Code128).unwrap();
        let n = b.modules.len();
        assert!(b.modules[..10].iter().all(|&m| !m));
        assert!(b.modules[n - 10..].iter().all(|&m| !m));
        assert_eq!(b.text, text);
        assert_eq!(b.format, BarcodeFormat::Code128);
    }
}

#[test]
fn ean13_display_has_check_digit() {
    let b = encode("400638133393", BarcodeFormat::Ean13).unwrap();
    assert_eq!(b.text, "4006381333931");
    assert_eq!(b.format, BarcodeFormat::Ean13);
    assert_eq!(b.modules.len(), 113);
}

#[test]
fn upc_a_display_has_check_digit() {
    let b = encode("03600029145", BarcodeFormat::UpcA).unwrap();
    assert_eq!(b.text, "036000291452");
    assert_eq!(b.format, BarcodeFormat::UpcA);
    assert_eq!(b.modules.len(), 113);
}

#[test]
fn code39_ignores_case() {
    let lower = encode("abc", BarcodeFormat::Code39).unwrap();
    let upper = encode("ABC", BarcodeFormat::Code39).unwrap();
    assert_eq!(lower.modules, upper.modules);
    assert_eq!(lower.text, upper.text);
    assert_eq!(lower.text, "ABC");
}

#[test]
fn auto_detect_rules() {
    assert_eq!(auto_detect("1234567890123"), BarcodeFormat::Ean13);
    assert_eq!(auto_detect("123456789012"), BarcodeFormat::UpcA);
    assert_eq!(auto_detect("HELLO-123"), BarcodeFormat::Code39);
    assert_eq!(auto_detect("Hello, World!"), BarcodeFormat::Code128);
    assert_eq!(auto_detect("12345678901"), BarcodeFormat::Code39);
    assert_eq!(auto_detect("hello"), BarcodeFormat::Code128);
}

#[test]
fn upc_a_keeps_its_format() {
    for text in ["03600029145", "036000291452", "12345678901"] {
        assert_eq!(encode(text, BarcodeFormat::UpcA).unwrap().format, BarcodeFormat::UpcA);
    }
}

#[test]
fn ean13_wrong_check_digit_is_corrected() {
    let b = encode("4006381333930", BarcodeFormat::Ean13).unwrap();
    assert_eq!(b.text, "4006381333931");
    let good = encode("4006381333931", BarcodeFormat::Ean13).unwrap();
    assert_eq!(b.modules, good.modules);
}

#[test]
fn upc_a_wrong_check_digit_is_corrected() {
    let b = encode("036000291459", BarcodeFormat::UpcA).unwrap();
    assert_eq!(b.text, "036000291452");
}

#[test]
fn upc_a_equals_ean13_with_leading_zero() {
    let upc = encode("03600029145", BarcodeFormat::UpcA).unwrap();
    let ean = encode("003600029145", BarcodeFormat::Ean13).unwrap();
    assert_eq!(upc.modules, ean.modules);
    assert_eq!(ean.text, "0036000291452");
}

#[test]
fn ean13_exact_modules() {
    let b = encode("400638133393", BarcodeFormat::Ean13).unwrap();
    let m: String = b.modules.iter().map(|&x| if x { '1' } else { '0' }).collect();
    // Leading 4: parity L G L L G G. Digits 0 0 6 3 8 1 | 3 3 3 9 3 1.
    let expected = String::new()
        + "000000000"
        + "101"
        + "0001101" // 0 L
        + "0100111" // 0 G
        + "0101111" // 6 L
        + "0111101" // 3 L
        + "0001001" // 8 G
        + "0110011" // 1 G
        + "01010"
        + "1000010" // 3
        + "1000010" // 3
        + "1000010" // 3
        + "1110100" // 9
        + "1000010" // 3
        + "1100110" // 1
        + "101"
        + "000000000";
    assert_eq!(m, expected);
}

#[test]
fn code128_subset_b_exact_modules() {
    // Start B, 'A' = 33; check (104 + 33) mod 103 = 34.
    let b = encode("A", BarcodeFormat::Code128).unwrap();
    assert_eq!(b.modules, code128_expected(&[104, 33, 34]));
    assert_eq!(b.modules.len(), 66);
}

#[test]
fn code128_starts_in_c_for_four_digits() {
    // Start C, 12, 34; check (105 + 12 + 34 * 2) mod 103 = 82.
    let b = encode("1234", BarcodeFormat::Code128).unwrap();
    assert_eq!(b.modules, code128_expected(&[105, 12, 34, 82]));
}

#[test]
fn code128_switches_to_c_for_digit_run() {
    // Start B, A, B, switch to C, 12, 34; check 720 mod 103 = 102.
    let b = encode("AB1234", BarcodeFormat::Code128).unwrap();
    assert_eq!(b.modules, code128_expected(&[104, 33, 34, 99, 12, 34, 102]));
}

#[test]
fn code128_switches_back_to_b_for_odd_digit() {
    // Start C, 12, 34, switch to B, '5' = 21; check 569 mod 103 = 54.
    let b = encode("12345", BarcodeFormat::Code128).unwrap();
    assert_eq!(b.modules, code128_expected(&[105, 12, 34, 100, 21, 54]));
}

#[test]
fn code128_short_digit_run_stays_in_b() {
    // 16 + 17 * 2 + 65 * 3 + 104 = 349, mod 103 = 40.
    let b = encode("01a", BarcodeFormat::Code128).unwrap();
    assert_eq!(b.modules, code128_expected(&[104, 16, 17, 65, 40]));
}

#[test]
fn code128_rejects_control_and_non_ascii() {
    assert!(encode("tab\there", BarcodeFormat::Code128).is_none());
    assert!(encode("\u{7f}", BarcodeFormat::Code128).is_none());
    assert!(encode("é", BarcodeFormat::Code128).is_none());
}

#[test]
fn code39_exact_modules() {
    let b = encode("A", BarcodeFormat::Code39).unwrap();
    let m: String = b.modules.iter().map(|&x| if x { '1' } else { '0' }).collect();
    let star = "100010111011101"; // n w n n w n w n n
    let a = "111010100010111"; // w n n n n w n n w
    let expected = format!("{}{}0{}0{}{}", "0".repeat(10), star, a, star, "0".repeat(10));
    assert_eq!(m, expected);
    assert_eq!(b.modules.len(), 67);
}

#[test]
fn code39_rejects_star_and_others() {
    assert!(encode("A*B", BarcodeFormat::Code39).is_none());
    assert!(encode("a_b", BarcodeFormat::Code39).is_none());
    assert!(encode("é", BarcodeFormat::Code39).is_none());
}

#[test]
fn code39_percent_drawn_like_space() {
    let p = encode("%", BarcodeFormat::Code39).unwrap();
    let s = encode(" ", BarcodeFormat::Code39).unwrap();
    assert_eq!(p.modules, s.modules);
    assert_eq!(p.text, "%");
}

#[test]
fn ean13_rejects_bad_lengths_and_characters() {
    assert!(encode("12345678901", BarcodeFormat::Ean13).is_none());
    assert!(encode("12345678901234", BarcodeFormat::Ean13).is_none());
    assert!(encode("40063813339a", BarcodeFormat::Ean13).is_none());
}

#[test]
fn upc_a_rejects_bad_lengths_and_characters() {
    assert!(encode("1234567890", BarcodeFormat::UpcA).is_none());
    assert!(encode("1234567890123", BarcodeFormat::UpcA).is_none());
    assert!(encode("0360002914x", BarcodeFormat::UpcA).is_none());
}

#[test]
fn check_digit_values() {
    assert_eq!(ean13_check_digit(&[4, 0, 0, 6, 3, 8, 1, 3, 3, 3, 9, 3]), 1);
    assert_eq!(ean13_check_digit(&[0, 0, 3, 6, 0, 0, 0, 2, 9, 1, 4, 5]), 2);
    assert_eq!(ean13_check_digit(&[]), 0);
    assert_eq!(ean13_check_digit(&[1]), 9);
}

#[test]
fn is_valid_per_format() {
    assert!(is_valid("Hello", BarcodeFormat::Code128));
    assert!(!is_valid("é", BarcodeFormat::Code128));
    assert!(is_valid("abc-1", BarcodeFormat::Code39));
    assert!(!is_valid("a*b", BarcodeFormat::Code39));
    assert!(is_valid("1234567890123", BarcodeFormat::Ean13));
    assert!(!is_valid("12345678901234", BarcodeFormat::Ean13));
    assert!(is_valid("123", BarcodeFormat::Ean13));
    assert!(is_valid("123456789012", BarcodeFormat::UpcA));
    assert!(!is_valid("1234567890123", BarcodeFormat::UpcA));
    assert!(!is_valid("12a", BarcodeFormat::UpcA));
}
