//! The result of an encode, format dispatch, validation and auto-detection.
use vstd::prelude::*;

use crate::bars::light;
use crate::code128::{code128_modules, code128_valid, encode_code128, STOP_MODULES};
use crate::code39::{
    code39_chars_valid, code39_modules, code39_valid, encode_code39, in_alphabet, in_code39_alphabet,
    index_of,
};
use crate::ean::{
    digit_values, ean_check, ean13_digits, ean13_modules, ean13_text, ean13_valid, encode_ean13, encode_upc_a, upc_modules,
    upc_text, upc_valid,
};
use crate::format::BarcodeFormat;
use crate::text::{all_ascii_digits, all_digits, chars_of, digit_char, is_digit, upper, upper_char};

verus! {

/// A successfully encoded symbol.
#[derive(Debug, Clone)]
pub struct Barcode {
    /// Module pattern: true = dark bar, false = light space.
    pub modules: Vec<bool>,
    /// Human-readable text shown below the bars.
    pub text: String,
    /// The format the symbol was encoded in.
    pub format: BarcodeFormat,
}

/// The modules and display text of `s` encoded in format `f`, or `None`
/// when `s` is empty or cannot be encoded in `f`.
pub open spec fn encoding_of(s: Seq<char>, f: BarcodeFormat) -> Option<(Seq<bool>, Seq<char>)> {
    if s.len() == 0 {
        None
    } else {
        match f {
            BarcodeFormat::Code128 => if code128_valid(s) {
                Some((code128_modules(s), s))
            } else {
                None
            },
            BarcodeFormat::Code39 => if code39_valid(s) {
                Some((code39_modules(s), upper(s)))
            } else {
                None
            },
            BarcodeFormat::Ean13 => if ean13_valid(s) {
                Some((ean13_modules(ean13_digits(s)), ean13_text(s)))
            } else {
                None
            },
            BarcodeFormat::UpcA => if upc_valid(s) {
                Some((upc_modules(s), upc_text(s)))
            } else {
                None
            },
        }
    }
}

/// The character-set and length check of each format.
pub open spec fn valid_for(s: Seq<char>, f: BarcodeFormat) -> bool {
    match f {
        BarcodeFormat::Code128 => forall|i: int| 0 <= i < s.len() ==> (#[trigger] s[i] as int) < 128,
        BarcodeFormat::Code39 => code39_valid(s),
        BarcodeFormat::Ean13 => s.len() <= 13 && all_digits(s),
        BarcodeFormat::UpcA => s.len() <= 12 && all_digits(s),
    }
}

/// The format recommended for `s`: the first rule that matches.
pub open spec fn detected_format(s: Seq<char>) -> BarcodeFormat {
    if all_digits(s) && s.len() == 13 {
        BarcodeFormat::Ean13
    } else if all_digits(s) && s.len() == 12 {
        BarcodeFormat::UpcA
    } else if in_code39_alphabet(s) {
        BarcodeFormat::Code39
    } else {
        BarcodeFormat::Code128
    }
}

/// Encodes `text` in `format`; `None` when the text is empty or cannot be
/// encoded in that format.
pub fn encode(text: &str, format: BarcodeFormat) -> (r: Option<Barcode>)
    ensures
        r is Some <==> encoding_of(text@, format) is Some,
        r matches Some(b) ==> {
            &&& (b.modules@, b.text@) == encoding_of(text@, format)->0
            &&& b.format == format
        },
{
    if text.is_empty() {
        return None;
    }
    match format {
        BarcodeFormat::Code128 => encode_code128(text),
        BarcodeFormat::Code39 => encode_code39(text),
        BarcodeFormat::Ean13 => encode_ean13(text),
        BarcodeFormat::UpcA => encode_upc_a(text),
    }
}

/// Whether `text` passes the character-set and length check of `format`.
pub fn is_valid(text: &str, format: BarcodeFormat) -> (r: bool)
    ensures
        r == valid_for(text@, format),
{
    let chars = chars_of(text);
    let n = chars.len();
    match format {
        BarcodeFormat::Code128 => {
            let mut k: usize = 0;
            while k < n
                invariant
                    n == chars@.len(),
                    chars@ == text@,
                    format == BarcodeFormat::Code128,
                    k <= n,
                    forall|j: int| 0 <= j < k ==> (#[trigger] chars@[j] as int) < 128,
                decreases n - k,
            {
                if chars[k] >= '\u{80}' {
                    assert(!valid_for(text@, format)) by {
                        assert((text@[k as int] as int) >= 128);
                        if valid_for(text@, format) {
                            assert((text@[k as int] as int) < 128);
                        }
                    }
                    return false;
                }
                k += 1;
            }
            true
        },
        BarcodeFormat::Code39 => code39_chars_valid(&chars),
        BarcodeFormat::Ean13 => n <= 13 && all_ascii_digits(&chars),
        BarcodeFormat::UpcA => n <= 12 && all_ascii_digits(&chars),
    }
}

/// Recommends a format for `text`: thirteen digits give EAN-13, twelve give
/// UPC-A, text within the Code 39 alphabet gives Code 39, anything else
/// Code 128.
pub fn auto_detect(text: &str) -> (r: BarcodeFormat)
    ensures
        r == detected_format(text@),
{
    let chars = chars_of(text);
    let n = chars.len();
    let digits = all_ascii_digits(&chars);
    if digits && n == 13 {
        return BarcodeFormat::Ean13;
    }
    if digits && n == 12 {
        return BarcodeFormat::UpcA;
    }
    if in_alphabet(&chars) {
        BarcodeFormat::Code39
    } else {
        BarcodeFormat::Code128
    }
}

/// The width of the quiet zone on each side of a symbol of format `f`.
pub open spec fn quiet_zone(f: BarcodeFormat) -> nat {
    match f {
        BarcodeFormat::Code128 | BarcodeFormat::Code39 => 10,
        BarcodeFormat::Ean13 | BarcodeFormat::UpcA => 9,
    }
}

/// Empty text never encodes, whatever the format.
pub proof fn lemma_empty_text_never_encodes(f: BarcodeFormat)
    ensures
        encoding_of(Seq::<char>::empty(), f) is None,
{
}

/// Text that fails the check of a format never encodes in that format.
pub proof fn lemma_invalid_text_never_encodes(s: Seq<char>, f: BarcodeFormat)
    requires
        !valid_for(s, f),
    ensures
        encoding_of(s, f) is None,
{
    if f == BarcodeFormat::Code128 && s.len() > 0 {
        let i = choose|i: int| 0 <= i < s.len() && !((s[i] as int) < 128);
        assert(!(32 <= s[i] as int <= 126));
    }
}

/// Every symbol starts and ends with the light quiet zone of its format.
pub proof fn lemma_quiet_zones(s: Seq<char>, f: BarcodeFormat)
    ensures
        encoding_of(s, f) matches Some((m, t)) ==> {
            &&& m.len() >= 2 * quiet_zone(f)
            &&& forall|i: int| 0 <= i < quiet_zone(f) ==> !(#[trigger] m[i])
            &&& forall|i: int|
                m.len() - quiet_zone(f) <= i < m.len() ==> !(#[trigger] m[i])
        },
{
    if let Some((m, t)) = encoding_of(s, f) {
        match f {
            BarcodeFormat::Code128 => {
                let b = crate::code128::symbol_modules(crate::code128::code128_symbols(s))
                    + STOP_MODULES@;
                assert(m =~= light(10) + b + light(10));
            },
            BarcodeFormat::Code39 => {
                let b = crate::code39::star_modules() + seq![false] + crate::code39::data_modules(
                    upper(s),
                ) + crate::code39::star_modules();
                assert(m =~= light(10) + b + light(10));
            },
            BarcodeFormat::Ean13 => {
                let d = ean13_digits(s);
                let b = crate::ean::edge_guard() + crate::ean::left_block(d, 6)
                    + crate::ean::center_guard() + crate::ean::right_block(d, 6)
                    + crate::ean::edge_guard();
                assert(m =~= light(9) + b + light(9));
            },
            BarcodeFormat::UpcA => {
                let d = seq![0int] + crate::ean::upc_digits(s);
                let b = crate::ean::edge_guard() + crate::ean::left_block(d, 6)
                    + crate::ean::center_guard() + crate::ean::right_block(d, 6)
                    + crate::ean::edge_guard();
                assert(m =~= light(9) + b + light(9));
            },
        }
    }
}

/// Printable ASCII text always encodes as Code 128, between ten light
/// modules on each side.
pub proof fn lemma_code128_quiet_zones(s: Seq<char>)
    requires
        s.len() > 0,
        code128_valid(s),
    ensures
        encoding_of(s, BarcodeFormat::Code128) matches Some((m, t)) && {
            &&& m.len() >= 20
            &&& forall|i: int| 0 <= i < 10 ==> !(#[trigger] m[i])
            &&& forall|i: int| m.len() - 10 <= i < m.len() ==> !(#[trigger] m[i])
        },
{
    lemma_quiet_zones(s, BarcodeFormat::Code128);
}

/// Code 39 ignores case: text and its upper-cased form give the same
/// modules and the same display text.
pub proof fn lemma_code39_ignores_case(s: Seq<char>)
    ensures
        encoding_of(s, BarcodeFormat::Code39) == encoding_of(upper(s), BarcodeFormat::Code39),
{
    let u = upper(s);
    assert(upper(u) =~= u);
    assert forall|i: int| 0 <= i < s.len() implies #[trigger] upper_char(u[i]) == upper_char(
        s[i],
    ) by {}
    if code39_valid(s) {
        assert forall|i: int| 0 <= i < u.len() implies (#[trigger] index_of(
            upper_char(u[i]),
        )) is Some by {
            assert(upper_char(u[i]) == upper_char(s[i]));
        }
    }
    if code39_valid(u) {
        assert forall|i: int| 0 <= i < s.len() implies (#[trigger] index_of(
            upper_char(s[i]),
        )) is Some by {
            assert(upper_char(u[i]) == upper_char(s[i]));
        }
    }
}

/// Thirteen digits always encode as EAN-13, with the last digit replaced
/// by the check digit of the first twelve: what the last digit was does
/// not matter.
pub proof fn lemma_ean13_check_digit_corrected(s: Seq<char>, c: char)
    requires
        s.len() == 13,
        all_digits(s),
        is_digit(c),
    ensures
        encoding_of(s, BarcodeFormat::Ean13) matches Some((m, t)) && {
            &&& t.len() == 13
            &&& t.subrange(0, 12) == s.subrange(0, 12)
            &&& t[12] == digit_char(ean_check(digit_values(s.subrange(0, 12))))
        },
        encoding_of(s.update(12, c), BarcodeFormat::Ean13) == encoding_of(
            s,
            BarcodeFormat::Ean13,
        ),
{
    let s2 = s.update(12, c);
    assert(s2.subrange(0, 12) =~= s.subrange(0, 12));
    assert(all_digits(s2));
    assert(ean13_text(s).subrange(0, 12) =~= s.subrange(0, 12));
}

} // verus!
