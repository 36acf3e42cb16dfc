//! Code 128, subsets B and C.
use vstd::prelude::*;
use vstd::string::StringExecFns;
use vstd::arithmetic::div_mod::{lemma_add_mod_noop_right, lemma_mul_mod_noop_right};

use crate::bars::{light, runs, push_all, push_light, push_run};
use crate::barcode::Barcode;
use crate::format::BarcodeFormat;
use crate::text::{chars_of, digit_value, ints, is_ascii_digit, is_digit};

verus! {

/// Element widths of every symbol value but the stop symbol: bar, space,
/// bar, space, bar, space, eleven modules in all.
pub const CODE128_PATTERNS: [[u8; 6]; 106] = [
    [2, 1, 2, 2, 2, 2], // 0
    [2, 2, 2, 1, 2, 2], // 1
    [2, 2, 2, 2, 2, 1], // 2
    [1, 2, 1, 2, 2, 3], // 3
    [1, 2, 1, 3, 2, 2], // 4
    [1, 3, 1, 2, 2, 2], // 5
    [1, 2, 2, 2, 1, 3], // 6
    [1, 2, 2, 3, 1, 2], // 7
    [1, 3, 2, 2, 1, 2], // 8
    [2, 2, 1, 2, 1, 3], // 9
    [2, 2, 1, 3, 1, 2], // 10
    [2, 3, 1, 2, 1, 2], // 11
    [1, 1, 2, 2, 3, 2], // 12
    [1, 2, 2, 1, 3, 2], // 13
    [1, 2, 2, 2, 3, 1], // 14
    [1, 1, 3, 2, 2, 2], // 15
    [1, 2, 3, 1, 2, 2], // 16
    [1, 2, 3, 2, 2, 1], // 17
    [2, 2, 3, 2, 1, 1], // 18
    [2, 2, 1, 1, 3, 2], // 19
    [2, 2, 1, 2, 3, 1], // 20
    [2, 1, 3, 2, 1, 2], // 21
    [2, 2, 3, 1, 1, 2], // 22
    [3, 1, 2, 1, 3, 1], // 23
    [3, 1, 1, 2, 2, 2], // 24
    [3, 2, 1, 1, 2, 2], // 25
    [3, 2, 1, 2, 2, 1], // 26
    [3, 1, 2, 2, 1, 2], // 27
    [3, 2, 2, 1, 1, 2], // 28
    [3, 2, 2, 2, 1, 1], // 29
    [2, 1, 2, 1, 2, 3], // 30
    [2, 1, 2, 3, 2, 1], // 31
    [2, 3, 2, 1, 2, 1], // 32
    [1, 1, 1, 3, 2, 3], // 33
    [1, 3, 1, 1, 2, 3], // 34
    [1, 3, 1, 3, 2, 1], // 35
    [1, 1, 2, 3, 1, 3], // 36
    [1, 3, 2, 1, 1, 3], // 37
    [1, 3, 2, 3, 1, 1], // 38
    [2, 1, 1, 3, 1, 3], // 39
    [2, 3, 1, 1, 1, 3], // 40
    [2, 3, 1, 3, 1, 1], // 41
    [1, 1, 2, 1, 3, 3], // 42
    [1, 1, 2, 3, 3, 1], // 43
    [1, 3, 2, 1, 3, 1], // 44
    [1, 1, 3, 1, 2, 3], // 45
    [1, 1, 3, 3, 2, 1], // 46
    [1, 3, 3, 1, 2, 1], // 47
    [3, 1, 3, 1, 2, 1], // 48
    [2, 1, 1, 3, 3, 1], // 49
    [2, 3, 1, 1, 3, 1], // 50
    [2, 1, 3, 1, 1, 3], // 51
    [2, 1, 3, 3, 1, 1], // 52
    [2, 1, 3, 1, 3, 1], // 53
    [3, 1, 1, 1, 2, 3], // 54
    [3, 1, 1, 3, 2, 1], // 55
    [3, 3, 1, 1, 2, 1], // 56
    [3, 1, 2, 1, 1, 3], // 57
    [3, 1, 2, 3, 1, 1], // 58
    [3, 3, 2, 1, 1, 1], // 59
    [3, 1, 4, 1, 1, 1], // 60
    [2, 2, 1, 4, 1, 1], // 61
    [4, 3, 1, 1, 1, 1], // 62
    [1, 1, 1, 2, 2, 4], // 63
    [1, 1, 1, 4, 2, 2], // 64
    [1, 2, 1, 1, 2, 4], // 65
    [1, 2, 1, 4, 2, 1], // 66
    [1, 4, 1, 1, 2, 2], // 67
    [1, 4, 1, 2, 2, 1], // 68
    [1, 1, 2, 2, 1, 4], // 69
    [1, 1, 2, 4, 1, 2], // 70
    [1, 2, 2, 1, 1, 4], // 71
    [1, 2, 2, 4, 1, 1], // 72
    [1, 4, 2, 1, 1, 2], // 73
    [1, 4, 2, 2, 1, 1], // 74
    [2, 4, 1, 2, 1, 1], // 75
    [2, 2, 1, 1, 1, 4], // 76
    [4, 1, 3, 1, 1, 1], // 77
    [2, 4, 1, 1, 1, 2], // 78
    [1, 3, 4, 1, 1, 1], // 79
    [1, 1, 1, 2, 4, 2], // 80
    [1, 2, 1, 1, 4, 2], // 81
    [1, 2, 1, 2, 4, 1], // 82
    [1, 1, 4, 2, 1, 2], // 83
    [1, 2, 4, 1, 1, 2], // 84
    [1, 2, 4, 2, 1, 1], // 85
    [4, 1, 1, 2, 1, 2], // 86
    [4, 2, 1, 1, 1, 2], // 87
    [4, 2, 1, 2, 1, 1], // 88
    [2, 1, 2, 1, 4, 1], // 89
    [2, 1, 4, 1, 2, 1], // 90
    [4, 1, 2, 1, 2, 1], // 91
    [1, 1, 1, 1, 4, 3], // 92
    [1, 1, 1, 3, 4, 1], // 93
    [1, 3, 1, 1, 4, 1], // 94
    [1, 1, 4, 1, 1, 3], // 95
    [1, 1, 4, 3, 1, 1], // 96
    [4, 1, 1, 1, 1, 3], // 97
    [4, 1, 1, 3, 1, 1], // 98
    [1, 1, 3, 1, 4, 1], // 99
    [1, 1, 4, 1, 3, 1], // 100
    [3, 1, 1, 1, 4, 1], // 101
    [4, 1, 1, 1, 3, 1], // 102
    [2, 1, 1, 4, 1, 2], // 103
    [2, 1, 1, 2, 1, 4], // 104
    [2, 1, 1, 2, 3, 2], // 105
];

/// The stop symbol: bar widths 2, 3, 3, 1, 1, 1, 2, thirteen modules.
pub const STOP_MODULES: [bool; 13] = [
    true, true, false, false, false, true, true, true, false, true, false, true, true,
];

pub const START_B: u8 = 104;
pub const START_C: u8 = 105;
pub const CODE_B: u8 = 100;
pub const CODE_C: u8 = 99;

/// Every character is printable ASCII (code points 32 to 126).
pub open spec fn code128_valid(s: Seq<char>) -> bool {
    forall|i: int| 0 <= i < s.len() ==> 32 <= #[trigger] (s[i] as int) <= 126
}

/// The `n` characters from position `i` on exist and are all digits.
pub open spec fn digits_at(s: Seq<char>, i: int, n: int) -> bool {
    &&& 0 <= i
    &&& i + n <= s.len()
    &&& forall|k: int| i <= k < i + n ==> #[trigger] is_digit(s[k])
}

/// The subset C value of the digit pair at `i`.
pub open spec fn pair_value(s: Seq<char>, i: int) -> int {
    digit_value(s[i]) * 10 + digit_value(s[i + 1])
}

/// The subset B value of a character.
pub open spec fn value_b(c: char) -> int {
    c as int - 32
}

/// Symbol values emitted for `s` from position `i` on, in subset C when
/// `in_c` holds, else in subset B. A switch of subset is emitted together
/// with the symbol that follows it.
pub open spec fn data_values(s: Seq<char>, i: int, in_c: bool) -> Seq<int>
    decreases s.len() - i,
{
    if i < 0 || i >= s.len() {
        Seq::empty()
    } else if in_c {
        if digits_at(s, i, 2) {
            seq![pair_value(s, i)] + data_values(s, i + 2, true)
        } else {
            seq![CODE_B as int, value_b(s[i])] + data_values(s, i + 1, false)
        }
    } else if digits_at(s, i, 4) {
        seq![CODE_C as int, pair_value(s, i)] + data_values(s, i + 2, true)
    } else {
        seq![value_b(s[i])] + data_values(s, i + 1, false)
    }
}

/// Subset C is chosen at the start when the text opens with four digits.
pub open spec fn starts_in_c(s: Seq<char>) -> bool {
    digits_at(s, 0, 4)
}

pub open spec fn start_value(s: Seq<char>) -> int {
    if starts_in_c(s) { START_C as int } else { START_B as int }
}

/// The start symbol followed by the data symbols.
pub open spec fn code128_values(s: Seq<char>) -> Seq<int> {
    seq![start_value(s)] + data_values(s, 0, starts_in_c(s))
}

/// Sum of `v[p] * p` over the positions `p >= 1`.
pub open spec fn weighted_sum(v: Seq<int>) -> int
    decreases v.len(),
{
    if v.len() <= 1 {
        0
    } else {
        weighted_sum(v.drop_last()) + v.last() * (v.len() - 1)
    }
}

/// The check symbol: the start value plus each data value times its
/// position, modulo 103.
pub open spec fn checksum_of(v: Seq<int>) -> int {
    (v[0] + weighted_sum(v)) % 103
}

/// Every symbol of the text with the check symbol, the stop symbol excluded.
pub open spec fn code128_symbols(s: Seq<char>) -> Seq<int> {
    code128_values(s).push(checksum_of(code128_values(s)))
}

pub open spec fn pattern_widths(v: int) -> Seq<int> {
    CODE128_PATTERNS@[v]@.map_values(|w: u8| w as int)
}

/// The modules of a sequence of symbol values, one pattern after another.
pub open spec fn symbol_modules(v: Seq<int>) -> Seq<bool>
    decreases v.len(),
{
    if v.len() == 0 {
        Seq::empty()
    } else {
        symbol_modules(v.drop_last()) + runs(pattern_widths(v.last()))
    }
}

/// The full module sequence: quiet zone, symbols, check, stop, quiet zone.
pub open spec fn code128_modules(s: Seq<char>) -> Seq<bool> {
    light(10) + symbol_modules(code128_symbols(s)) + STOP_MODULES@ + light(10)
}

/// The subset B value of a character, if it is printable ASCII.
pub fn code128_value_b(c: char) -> (r: Option<usize>)
    ensures
        r is Some <==> 32 <= c as int <= 126,
        r matches Some(v) ==> v as int == value_b(c),
{
    let v = c as u32;
    if v >= 32 && v <= 126 {
        Some((v - 32) as usize)
    } else {
        None
    }
}

/// The modules of one symbol pattern.
pub fn pattern_to_modules(pattern: &[u8; 6]) -> (r: Vec<bool>)
    ensures
        r@ == runs(pattern@.map_values(|w: u8| w as int)),
{
    let ghost w = pattern@.map_values(|w: u8| w as int);
    let mut out: Vec<bool> = Vec::new();
    let mut k: usize = 0;
    assert(w.subrange(0, 0) =~= Seq::<int>::empty());
    while k < 6
        invariant
            k <= 6,
            w == pattern@.map_values(|w: u8| w as int),
            out@ == runs(w.subrange(0, k as int)),
        decreases 6 - k,
    {
        push_run(&mut out, k % 2 == 0, pattern[k] as usize);
        assert(w.subrange(0, k + 1).drop_last() =~= w.subrange(0, k as int));
        k += 1;
    }
    assert(w.subrange(0, 6) =~= w);
    out
}

/// Whether the `n` characters from `i` on exist and are all digits.
fn has_digits_at(chars: &Vec<char>, i: usize, n: usize) -> (r: bool)
    ensures
        r == digits_at(chars@, i as int, n as int),
{
    if i > chars.len() || n > chars.len() - i {
        return false;
    }
    let mut k: usize = 0;
    while k < n
        invariant
            i + n <= chars.len(),
            k <= n,
            forall|j: int| i <= j < i + k ==> #[trigger] is_digit(chars@[j]),
        decreases n - k,
    {
        if !is_ascii_digit(chars[i + k]) {
            return false;
        }
        k += 1;
    }
    true
}

/// The subset C value of two digit characters.
fn pair_of(a: char, b: char) -> (r: u8)
    requires
        is_digit(a),
        is_digit(b),
    ensures
        r as int == digit_value(a) * 10 + digit_value(b),
        r <= 99,
{
    (((a as u32) - ('0' as u32)) * 10 + ((b as u32) - ('0' as u32))) as u8
}

/// The check symbol of the start symbol and data symbols in `values`.
fn checksum(values: &Vec<u8>) -> (r: u8)
    requires
        values@.len() >= 1,
    ensures
        r as int == checksum_of(ints(values@)),
        r < 103,
{
    let ghost v = ints(values@);
    let mut sum: usize = (values[0] % 103) as usize;
    let mut p: usize = 1;
    assert(v.subrange(0, 1).len() == 1);
    while p < values.len()
        invariant
            v == ints(values@),
            1 <= p <= values@.len(),
            sum < 103,
            sum as int == (v[0] + weighted_sum(v.subrange(0, p as int))) % 103,
        decreases values@.len() - p,
    {
        let ghost a = v[0] + weighted_sum(v.subrange(0, p as int));
        let x = values[p] as usize;
        let w = p % 103;
        proof {
            assert(v.subrange(0, p + 1).drop_last() =~= v.subrange(0, p as int));
            assert(weighted_sum(v.subrange(0, p + 1)) == weighted_sum(v.subrange(0, p as int))
                + x * p);
            lemma_mul_mod_noop_right(x as int, p as int, 103);
            lemma_add_mod_noop_right(a, x * w, 103);
            lemma_add_mod_noop_right(a, x * p, 103);
            lemma_add_mod_noop_right(x * w, a, 103);
            assert(x * w <= 255 * 102) by (nonlinear_arith)
                requires x <= 255, w <= 102;
        }
        sum = (sum + x * w) % 103;
        p += 1;
    }
    assert(v.subrange(0, values@.len() as int) =~= v);
    sum as u8
}

/// Encodes printable ASCII text as Code 128, switching between subsets B
/// and C; `None` when a character lies outside code points 32 to 126.
pub fn encode_code128(text: &str) -> (r: Option<Barcode>)
    ensures
        r is Some <==> code128_valid(text@),
        r matches Some(b) ==> {
            &&& b.modules@ == code128_modules(text@)
            &&& b.text@ == text@
            &&& b.format == BarcodeFormat::Code128
        },
{
    let chars = chars_of(text);
    let n = chars.len();
    let mut k: usize = 0;
    while k < n
        invariant
            n == chars@.len(),
            chars@ == text@,
            k <= n,
            forall|j: int| 0 <= j < k ==> 32 <= #[trigger] (chars@[j] as int) <= 126,
        decreases n - k,
    {
        let c = chars[k];
        if c < ' ' || c > '~' {
            return None;
        }
        k += 1;
    }
    let ghost s = text@;
    let start_c = has_digits_at(&chars, 0, 4);
    let mut in_c = start_c;
    let mut values: Vec<u8> = Vec::new();
    values.push(if start_c { START_C } else { START_B });
    assert(ints(values@) =~= seq![start_value(s)]);
    let mut i: usize = 0;
    while i < n
        invariant
            n == s.len(),
            chars@ == s,
            code128_valid(s),
            i <= n,
            ints(values@) + data_values(s, i as int, in_c) == code128_values(s),
            forall|j: int| 0 <= j < values@.len() ==> #[trigger] values@[j] < 106,
        decreases n - i,
    {
        let ghost prev = values@;
        let ghost rest = data_values(s, i as int, in_c);
        if in_c && has_digits_at(&chars, i, 2) {
            values.push(pair_of(chars[i], chars[i + 1]));
            i += 2;
        } else if in_c {
            values.push(CODE_B);
            match code128_value_b(chars[i]) {
                Some(v) => values.push(v as u8),
                None => {},
            }
            in_c = false;
            i += 1;
        } else if has_digits_at(&chars, i, 4) {
            values.push(CODE_C);
            values.push(pair_of(chars[i], chars[i + 1]));
            in_c = true;
            i += 2;
        } else {
            match code128_value_b(chars[i]) {
                Some(v) => values.push(v as u8),
                None => {},
            }
            i += 1;
        }
        assert(ints(values@) + data_values(s, i as int, in_c) =~= ints(prev) + rest);
        assert(forall|j: int| prev.len() <= j < values@.len() ==> #[trigger] values@[j] < 106);
    }
    assert(ints(values@) =~= code128_values(s));
    let check = checksum(&values);
    values.push(check);
    assert(ints(values@) =~= code128_symbols(s));

    let mut modules: Vec<bool> = Vec::new();
    push_light(&mut modules, 10);
    let mut p: usize = 0;
    let ghost syms = ints(values@);
    assert(syms.subrange(0, 0) =~= Seq::<int>::empty());
    assert(modules@ =~= light(10) + symbol_modules(syms.subrange(0, 0)));
    while p < values.len()
        invariant
            syms == ints(values@),
            p <= values@.len(),
            forall|j: int| 0 <= j < values@.len() ==> #[trigger] values@[j] < 106,
            modules@ == light(10) + symbol_modules(syms.subrange(0, p as int)),
        decreases values@.len() - p,
    {
        let pattern = pattern_to_modules(&CODE128_PATTERNS[values[p] as usize]);
        push_all(&mut modules, pattern.as_slice());
        assert(syms.subrange(0, p + 1).drop_last() =~= syms.subrange(0, p as int));
        p += 1;
    }
    assert(syms.subrange(0, values@.len() as int) =~= syms);
    push_all(&mut modules, &STOP_MODULES);
    push_light(&mut modules, 10);
    Some(Barcode { modules, text: String::from_str(text), format: BarcodeFormat::Code128 })
}

} // verus!
