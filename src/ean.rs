//! EAN-13, and UPC-A laid out as EAN-13 with a leading zero.
use vstd::prelude::*;
use vstd::arithmetic::div_mod::lemma_add_mod_noop_right;

use crate::barcode::Barcode;
use crate::bars::{light, push_all, push_light};
use crate::format::BarcodeFormat;
use crate::text::{
    all_ascii_digits, all_digits, chars_of, digit_char, digit_value, ints, is_digit, push_char,
};

verus! {

/// Left-hand digit patterns, odd parity.
pub const EAN_L_PATTERNS: [[bool; 7]; 10] = [
    [false, false, false, true, true, false, true], // 0
    [false, false, true, true, false, false, true], // 1
    [false, false, true, false, false, true, true], // 2
    [false, true, true, true, true, false, true], // 3
    [false, true, false, false, false, true, true], // 4
    [false, true, true, false, false, false, true], // 5
    [false, true, false, true, true, true, true], // 6
    [false, true, true, true, false, true, true], // 7
    [false, true, true, false, true, true, true], // 8
    [false, false, false, true, false, true, true], // 9
];

/// Left-hand digit patterns, even parity.
pub const EAN_G_PATTERNS: [[bool; 7]; 10] = [
    [false, true, false, false, true, true, true], // 0
    [false, true, true, false, false, true, true], // 1
    [false, false, true, true, false, true, true], // 2
    [false, true, false, false, false, false, true], // 3
    [false, false, true, true, true, false, true], // 4
    [false, true, true, true, false, false, true], // 5
    [false, false, false, false, true, false, true], // 6
    [false, false, true, false, false, false, true], // 7
    [false, false, false, true, false, false, true], // 8
    [false, false, true, false, true, true, true], // 9
];

/// Right-hand digit patterns.
pub const EAN_R_PATTERNS: [[bool; 7]; 10] = [
    [true, true, true, false, false, true, false], // 0
    [true, true, false, false, true, true, false], // 1
    [true, true, false, true, true, false, false], // 2
    [true, false, false, false, false, true, false], // 3
    [true, false, true, true, true, false, false], // 4
    [true, false, false, true, true, true, false], // 5
    [true, false, true, false, false, false, false], // 6
    [true, false, false, false, true, false, false], // 7
    [true, false, false, true, false, false, false], // 8
    [true, true, true, false, true, false, false], // 9
];

/// For each leading digit, the pattern set of the six left-hand digits
/// (0 = L, 1 = G).
pub const EAN_PARITY: [[u8; 6]; 10] = [
    [0, 0, 0, 0, 0, 0], // 0
    [0, 0, 1, 0, 1, 1], // 1
    [0, 0, 1, 1, 0, 1], // 2
    [0, 0, 1, 1, 1, 0], // 3
    [0, 1, 0, 0, 1, 1], // 4
    [0, 1, 1, 0, 0, 1], // 5
    [0, 1, 1, 1, 0, 0], // 6
    [0, 1, 0, 1, 0, 1], // 7
    [0, 1, 0, 1, 1, 0], // 8
    [0, 1, 1, 0, 1, 0], // 9
];

/// The numeric values of a sequence of digit characters.
pub open spec fn digit_values(s: Seq<char>) -> Seq<int> {
    s.map_values(|c: char| digit_value(c))
}

/// EAN weighting: 1 at even positions, 3 at odd positions.
pub open spec fn ean_weighted(d: Seq<int>) -> int
    decreases d.len(),
{
    if d.len() == 0 {
        0
    } else {
        ean_weighted(d.drop_last()) + d.last() * (if (d.len() - 1) % 2 == 0 { 1int } else { 3 })
    }
}

/// UPC weighting: 3 at even positions, 1 at odd positions.
pub open spec fn upc_weighted(d: Seq<int>) -> int
    decreases d.len(),
{
    if d.len() == 0 {
        0
    } else {
        upc_weighted(d.drop_last()) + d.last() * (if (d.len() - 1) % 2 == 0 { 3int } else { 1 })
    }
}

/// The digit that brings a weighted sum up to a multiple of ten.
pub open spec fn check_of(sum: int) -> int {
    (10 - sum % 10) % 10
}

pub open spec fn ean_check(d: Seq<int>) -> int {
    check_of(ean_weighted(d))
}

pub open spec fn upc_check(d: Seq<int>) -> int {
    check_of(upc_weighted(d))
}

/// The pattern of the left-hand digit `d` at left position `pos` (0 to 5),
/// its set chosen by the leading digit.
pub open spec fn left_pattern(first: int, pos: int, d: int) -> Seq<bool> {
    if EAN_PARITY@[first]@[pos] == 0 {
        EAN_L_PATTERNS@[d]@
    } else {
        EAN_G_PATTERNS@[d]@
    }
}

/// The first `n` left-hand digits (positions 1 to n) laid out.
pub open spec fn left_block(d: Seq<int>, n: int) -> Seq<bool>
    decreases n,
{
    if n <= 0 {
        Seq::empty()
    } else {
        left_block(d, n - 1) + left_pattern(d[0], n - 1, d[n])
    }
}

/// The first `n` right-hand digits (positions 7 to 6 + n) laid out.
pub open spec fn right_block(d: Seq<int>, n: int) -> Seq<bool>
    decreases n,
{
    if n <= 0 {
        Seq::empty()
    } else {
        right_block(d, n - 1) + EAN_R_PATTERNS@[d[6 + n]]@
    }
}

pub open spec fn edge_guard() -> Seq<bool> {
    seq![true, false, true]
}

pub open spec fn center_guard() -> Seq<bool> {
    seq![false, true, false, true, false]
}

/// The modules of the thirteen digits `d`: quiet zone, start guard, left
/// block, center guard, right block, end guard, quiet zone.
pub open spec fn ean13_modules(d: Seq<int>) -> Seq<bool> {
    light(9) + edge_guard() + left_block(d, 6) + center_guard() + right_block(d, 6)
        + edge_guard() + light(9)
}

/// Twelve or thirteen digits.
pub open spec fn ean13_valid(s: Seq<char>) -> bool {
    all_digits(s) && (s.len() == 12 || s.len() == 13)
}

/// The first twelve digits of `s` with their check digit.
pub open spec fn ean13_digits(s: Seq<char>) -> Seq<int> {
    let d = digit_values(s.subrange(0, 12));
    d.push(ean_check(d))
}

/// The text shown under an EAN-13 symbol: the thirteen digits.
pub open spec fn ean13_text(s: Seq<char>) -> Seq<char> {
    s.subrange(0, 12).push(digit_char(ean_check(digit_values(s.subrange(0, 12)))))
}

/// Eleven or twelve digits.
pub open spec fn upc_valid(s: Seq<char>) -> bool {
    all_digits(s) && (s.len() == 11 || s.len() == 12)
}

/// The twelve UPC-A digits: the first eleven of `s` and their check digit.
pub open spec fn upc_digits(s: Seq<char>) -> Seq<int> {
    let d = digit_values(s.subrange(0, 11));
    d.push(upc_check(d))
}

/// The text shown under a UPC-A symbol: the twelve UPC digits.
pub open spec fn upc_text(s: Seq<char>) -> Seq<char> {
    s.subrange(0, 11).push(digit_char(upc_check(digit_values(s.subrange(0, 11)))))
}

/// A UPC-A symbol is the EAN-13 symbol of its digits after a leading zero.
pub open spec fn upc_modules(s: Seq<char>) -> Seq<bool> {
    ean13_modules(seq![0int] + upc_digits(s))
}

/// A leading zero shifts every position by one, which turns the EAN
/// weighting into the UPC weighting.
pub proof fn lemma_leading_zero_weighting(d: Seq<int>)
    ensures
        ean_weighted(seq![0int] + d) == upc_weighted(d),
    decreases d.len(),
{
    let z = seq![0int] + d;
    if d.len() > 0 {
        assert(z.drop_last() =~= seq![0int] + d.drop_last());
        assert(z.last() == d.last());
        lemma_leading_zero_weighting(d.drop_last());
        assert(ean_weighted(z) == ean_weighted(z.drop_last()) + z.last() * (if (z.len() - 1) % 2
            == 0 { 1int } else { 3 }));
        assert(upc_weighted(d) == upc_weighted(d.drop_last()) + d.last() * (if (d.len() - 1) % 2
            == 0 { 3int } else { 1 }));
        if d.len() % 2 == 0 {
            assert((z.len() - 1) % 2 == 0 && (d.len() - 1) % 2 == 1);
        } else {
            assert((z.len() - 1) % 2 == 1 && (d.len() - 1) % 2 == 0);
        }
    } else {
        assert(z.drop_last() =~= Seq::<int>::empty());
        assert(z.last() == 0);
        assert(ean_weighted(z.drop_last()) == 0);
        assert(ean_weighted(z) == 0);
    }
}

/// Computes the EAN-13 check digit of `digits` (normally the first twelve):
/// weight 1 at even positions, 3 at odd positions.
pub fn ean13_check_digit(digits: &[u8]) -> (r: u8)
    ensures
        r as int == ean_check(ints(digits@)),
        r < 10,
{
    let ghost v = ints(digits@);
    let mut sum: u32 = 0;
    let mut i: usize = 0;
    while i < digits.len()
        invariant
            v == ints(digits@),
            i <= digits@.len(),
            sum < 10,
            sum as int == ean_weighted(v.subrange(0, i as int)) % 10,
        decreases digits@.len() - i,
    {
        let d = digits[i] as u32;
        let x = if i % 2 == 0 { d } else { d * 3 };
        proof {
            assert(v.subrange(0, i + 1).drop_last() =~= v.subrange(0, i as int));
            lemma_add_mod_noop_right(x as int, ean_weighted(v.subrange(0, i as int)), 10);
        }
        sum = (sum + x) % 10;
        i += 1;
    }
    assert(v.subrange(0, digits@.len() as int) =~= v);
    ((10 - sum) % 10) as u8
}

/// Computes the UPC-A check digit of `digits` (normally the first eleven):
/// weight 3 at even positions, 1 at odd positions.
pub fn upc_check_digit(digits: &[u8]) -> (r: u8)
    ensures
        r as int == upc_check(ints(digits@)),
        r < 10,
{
    let ghost v = ints(digits@);
    let mut sum: u32 = 0;
    let mut i: usize = 0;
    while i < digits.len()
        invariant
            v == ints(digits@),
            i <= digits@.len(),
            sum < 10,
            sum as int == upc_weighted(v.subrange(0, i as int)) % 10,
        decreases digits@.len() - i,
    {
        let d = digits[i] as u32;
        let x = if i % 2 == 0 { d * 3 } else { d };
        proof {
            assert(v.subrange(0, i + 1).drop_last() =~= v.subrange(0, i as int));
            lemma_add_mod_noop_right(x as int, upc_weighted(v.subrange(0, i as int)), 10);
        }
        sum = (sum + x) % 10;
        i += 1;
    }
    assert(v.subrange(0, digits@.len() as int) =~= v);
    ((10 - sum) % 10) as u8
}

/// The values of the first `n` digit characters.
fn leading_digits(chars: &Vec<char>, n: usize) -> (r: Vec<u8>)
    requires
        n <= chars@.len(),
        all_digits(chars@),
    ensures
        ints(r@) == digit_values(chars@.subrange(0, n as int)),
        forall|j: int| 0 <= j < r@.len() ==> #[trigger] r@[j] < 10,
{
    let mut out: Vec<u8> = Vec::new();
    let mut k: usize = 0;
    while k < n
        invariant
            n <= chars@.len(),
            all_digits(chars@),
            k <= n,
            ints(out@) == digit_values(chars@.subrange(0, k as int)),
            forall|j: int| 0 <= j < out@.len() ==> #[trigger] out@[j] < 10,
        decreases n - k,
    {
        assert(is_digit(chars@[k as int]));
        let v = ((chars[k] as u32) - ('0' as u32)) as u8;
        assert(v as int == digit_value(chars@[k as int]));
        let ghost prev = out@;
        out.push(v);
        assert(ints(out@) =~= ints(prev).push(v as int));
        assert(digit_values(chars@.subrange(0, k + 1)) =~= digit_values(
            chars@.subrange(0, k as int),
        ).push(digit_value(chars@[k as int])));
        k += 1;
        assert(ints(out@) =~= digit_values(chars@.subrange(0, k as int)));
    }
    out
}

/// The text of a sequence of digit values.
fn digits_text(digits: &Vec<u8>) -> (r: String)
    requires
        forall|j: int| 0 <= j < digits@.len() ==> #[trigger] digits@[j] < 10,
    ensures
        r@ == ints(digits@).map_values(|d: int| digit_char(d)),
{
    let mut out = String::new();
    let mut k: usize = 0;
    while k < digits.len()
        invariant
            k <= digits@.len(),
            forall|j: int| 0 <= j < digits@.len() ==> #[trigger] digits@[j] < 10,
            out@ == ints(digits@).subrange(0, k as int).map_values(|d: int| digit_char(d)),
        decreases digits@.len() - k,
    {
        push_char(&mut out, (digits[k] + 48) as char);
        k += 1;
        assert(out@ =~= ints(digits@).subrange(0, k as int).map_values(|d: int| digit_char(d)));
    }
    assert(ints(digits@).subrange(0, digits@.len() as int) =~= ints(digits@));
    out
}

/// Encodes twelve digits, or thirteen whose last is replaced by the
/// computed check digit, as EAN-13.
pub fn encode_ean13(text: &str) -> (r: Option<Barcode>)
    ensures
        r is Some <==> ean13_valid(text@),
        r matches Some(b) ==> {
            &&& b.modules@ == ean13_modules(ean13_digits(text@))
            &&& b.text@ == ean13_text(text@)
            &&& b.format == BarcodeFormat::Ean13
        },
{
    let chars = chars_of(text);
    if !all_ascii_digits(&chars) {
        return None;
    }
    if chars.len() != 12 && chars.len() != 13 {
        return None;
    }
    let ghost s = text@;
    let mut digits = leading_digits(&chars, 12);
    let check = ean13_check_digit(digits.as_slice());
    digits.push(check);
    let ghost d = ints(digits@);
    assert(d =~= ean13_digits(s));

    let mut modules: Vec<bool> = Vec::new();
    push_light(&mut modules, 9);
    modules.push(true);
    modules.push(false);
    modules.push(true);
    let ghost head = modules@;
    assert(head =~= light(9) + edge_guard());

    let parity = EAN_PARITY[digits[0] as usize];
    let mut i: usize = 0;
    while i < 6
        invariant
            d == ints(digits@),
            digits@.len() == 13,
            forall|j: int| 0 <= j < 13 ==> #[trigger] digits@[j] < 10,
            parity@ == EAN_PARITY@[d[0]]@,
            i <= 6,
            modules@ == head + left_block(d, i as int),
        decreases 6 - i,
    {
        let digit = digits[i + 1] as usize;
        if parity[i] == 0 {
            push_all(&mut modules, &EAN_L_PATTERNS[digit]);
        } else {
            push_all(&mut modules, &EAN_G_PATTERNS[digit]);
        }
        i += 1;
    }
    modules.push(false);
    modules.push(true);
    modules.push(false);
    modules.push(true);
    modules.push(false);
    let ghost mid = modules@;
    assert(mid =~= head + left_block(d, 6) + center_guard());
    let mut i: usize = 0;
    while i < 6
        invariant
            d == ints(digits@),
            digits@.len() == 13,
            forall|j: int| 0 <= j < 13 ==> #[trigger] digits@[j] < 10,
            i <= 6,
            modules@ == mid + right_block(d, i as int),
        decreases 6 - i,
    {
        push_all(&mut modules, &EAN_R_PATTERNS[digits[i + 7] as usize]);
        i += 1;
    }
    modules.push(true);
    modules.push(false);
    modules.push(true);
    push_light(&mut modules, 9);
    assert(modules@ =~= ean13_modules(d));

    let display = digits_text(&digits);
    proof {
        assert forall|j: int| 0 <= j < 12 implies #[trigger] digit_char(d[j]) == s[j] by {
            assert(is_digit(s[j]));
        }
        assert(display@ =~= ean13_text(s));
    }
    Some(Barcode { modules, text: display, format: BarcodeFormat::Ean13 })
}

/// Encodes eleven digits, or twelve whose last is replaced by the computed
/// check digit, as UPC-A: the EAN-13 symbol of the digits after a zero.
pub fn encode_upc_a(text: &str) -> (r: Option<Barcode>)
    ensures
        r is Some <==> upc_valid(text@),
        r matches Some(b) ==> {
            &&& b.modules@ == upc_modules(text@)
            &&& b.text@ == upc_text(text@)
            &&& b.format == BarcodeFormat::UpcA
        },
{
    let chars = chars_of(text);
    if !all_ascii_digits(&chars) {
        return None;
    }
    if chars.len() != 11 && chars.len() != 12 {
        return None;
    }
    let ghost s = text@;
    let mut digits = leading_digits(&chars, 11);
    let check = upc_check_digit(digits.as_slice());
    digits.push(check);
    let ghost u = ints(digits@);
    assert(u =~= upc_digits(s));

    let display = digits_text(&digits);
    let mut ean_digits: Vec<u8> = Vec::new();
    ean_digits.push(0);
    push_all_digits(&mut ean_digits, &digits);
    let ean_text = digits_text(&ean_digits);
    proof {
        assert forall|j: int| 0 <= j < 11 implies #[trigger] digit_char(u[j]) == s[j] by {
            assert(is_digit(s[j]));
        }
        assert(display@ =~= upc_text(s));
        let e = ints(ean_digits@);
        assert(e =~= seq![0int] + u);
        let t = ean_text@;
        assert(u.drop_last() =~= digit_values(s.subrange(0, 11)));
        assert(all_digits(t));
        assert(digit_values(t.subrange(0, 12)) =~= seq![0int] + u.drop_last());
        lemma_leading_zero_weighting(u.drop_last());
        assert(ean13_digits(t) =~= seq![0int] + u);
    }
    match encode_ean13(ean_text.as_str()) {
        Some(b) => Some(Barcode { modules: b.modules, text: display, format: BarcodeFormat::UpcA }),
        None => None,
    }
}

/// Appends the digit values of `src`.
fn push_all_digits(out: &mut Vec<u8>, src: &Vec<u8>)
    ensures
        final(out)@ == old(out)@ + src@,
{
    let mut k: usize = 0;
    while k < src.len()
        invariant
            k <= src@.len(),
            out@ == old(out)@ + src@.subrange(0, k as int),
        decreases src@.len() - k,
    {
        out.push(src[k]);
        k += 1;
        assert(out@ =~= old(out)@ + src@.subrange(0, k as int));
    }
    assert(src@.subrange(0, src@.len() as int) =~= src@);
}

} // verus!
