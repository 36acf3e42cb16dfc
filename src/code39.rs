//! Code 39.
use vstd::prelude::*;

use crate::barcode::Barcode;
use crate::bars::{light, runs, push_light, push_run};
use crate::format::BarcodeFormat;
use crate::text::{chars_of, push_char, to_upper, upper, upper_char};

verus! {

/// The characters Code 39 can carry, in table order.
pub const CODE39_CHARS: [char; 43] = [
    '0', '1', '2', '3', '4', '5', '6', '7', '8', '9', 'A', 'B', 'C', 'D', 'E', 'F', 'G', 'H', 'I', 'J', 'K', 'L', 'M', 'N', 'O', 'P', 'Q', 'R', 'S', 'T', 'U', 'V', 'W', 'X', 'Y', 'Z', '-', '.', ' ', '$', '/', '+', '%'
];

/// The nine elements of each character of `CODE39_CHARS` (bar, space, ...,
/// bar): 0 = narrow, 1 = wide. `%` is drawn like the space.
pub const CODE39_PATTERNS: [[u8; 9]; 43] = [
    [0, 0, 0, 1, 1, 0, 1, 0, 0], // '0'
    [1, 0, 0, 1, 0, 0, 0, 0, 1], // '1'
    [0, 0, 1, 1, 0, 0, 0, 0, 1], // '2'
    [1, 0, 1, 1, 0, 0, 0, 0, 0], // '3'
    [0, 0, 0, 1, 1, 0, 0, 0, 1], // '4'
    [1, 0, 0, 1, 1, 0, 0, 0, 0], // '5'
    [0, 0, 1, 1, 1, 0, 0, 0, 0], // '6'
    [0, 0, 0, 1, 0, 0, 1, 0, 1], // '7'
    [1, 0, 0, 1, 0, 0, 1, 0, 0], // '8'
    [0, 0, 1, 1, 0, 0, 1, 0, 0], // '9'
    [1, 0, 0, 0, 0, 1, 0, 0, 1], // 'A'
    [0, 0, 1, 0, 0, 1, 0, 0, 1], // 'B'
    [1, 0, 1, 0, 0, 1, 0, 0, 0], // 'C'
    [0, 0, 0, 0, 1, 1, 0, 0, 1], // 'D'
    [1, 0, 0, 0, 1, 1, 0, 0, 0], // 'E'
    [0, 0, 1, 0, 1, 1, 0, 0, 0], // 'F'
    [0, 0, 0, 0, 0, 1, 1, 0, 1], // 'G'
    [1, 0, 0, 0, 0, 1, 1, 0, 0], // 'H'
    [0, 0, 1, 0, 0, 1, 1, 0, 0], // 'I'
    [0, 0, 0, 0, 1, 1, 1, 0, 0], // 'J'
    [1, 0, 0, 0, 0, 0, 0, 1, 1], // 'K'
    [0, 0, 1, 0, 0, 0, 0, 1, 1], // 'L'
    [1, 0, 1, 0, 0, 0, 0, 1, 0], // 'M'
    [0, 0, 0, 0, 1, 0, 0, 1, 1], // 'N'
    [1, 0, 0, 0, 1, 0, 0, 1, 0], // 'O'
    [0, 0, 1, 0, 1, 0, 0, 1, 0], // 'P'
    [0, 0, 0, 0, 0, 0, 1, 1, 1], // 'Q'
    [1, 0, 0, 0, 0, 0, 1, 1, 0], // 'R'
    [0, 0, 1, 0, 0, 0, 1, 1, 0], // 'S'
    [0, 0, 0, 0, 1, 0, 1, 1, 0], // 'T'
    [1, 1, 0, 0, 0, 0, 0, 0, 1], // 'U'
    [0, 1, 1, 0, 0, 0, 0, 0, 1], // 'V'
    [1, 1, 1, 0, 0, 0, 0, 0, 0], // 'W'
    [0, 1, 0, 0, 1, 0, 0, 0, 1], // 'X'
    [1, 1, 0, 0, 1, 0, 0, 0, 0], // 'Y'
    [0, 1, 1, 0, 1, 0, 0, 0, 0], // 'Z'
    [0, 1, 0, 0, 0, 0, 1, 0, 1], // '-'
    [1, 1, 0, 0, 0, 0, 1, 0, 0], // '.'
    [0, 1, 0, 1, 0, 1, 0, 0, 0], // ' '
    [0, 1, 0, 1, 0, 0, 0, 1, 0], // '$'
    [0, 1, 0, 0, 0, 1, 0, 1, 0], // '/'
    [0, 0, 0, 1, 0, 1, 0, 1, 0], // '+'
    [0, 1, 0, 1, 0, 1, 0, 0, 0], // '%'
];

/// The `*` start and stop character.
pub const CODE39_STAR: [u8; 9] = [0, 1, 0, 0, 1, 0, 1, 0, 0];

/// The first table position at or after `i` that holds `c`.
pub open spec fn index_from(c: char, i: int) -> Option<int>
    decreases 43 - i,
{
    if i < 0 || i >= 43 {
        None
    } else if CODE39_CHARS@[i] == c {
        Some(i)
    } else {
        index_from(c, i + 1)
    }
}

/// The table position of `c`, if Code 39 can carry it.
pub open spec fn index_of(c: char) -> Option<int> {
    index_from(c, 0)
}

/// Every character, once upper-cased, is in the Code 39 alphabet.
pub open spec fn code39_valid(s: Seq<char>) -> bool {
    forall|i: int| 0 <= i < s.len() ==> (#[trigger] index_of(upper_char(s[i]))) is Some
}

/// Module widths of a narrow/wide pattern: narrow is 1, wide is 3.
pub open spec fn element_widths(p: Seq<u8>) -> Seq<int> {
    p.map_values(|e: u8| if e != 0 { 3int } else { 1int })
}

pub open spec fn star_modules() -> Seq<bool> {
    runs(element_widths(CODE39_STAR@))
}

/// Each character's modules followed by a light gap module.
pub open spec fn data_modules(u: Seq<char>) -> Seq<bool>
    decreases u.len(),
{
    if u.len() == 0 {
        Seq::empty()
    } else {
        data_modules(u.drop_last()) + runs(
            element_widths(CODE39_PATTERNS@[index_of(u.last())->0]@),
        ) + seq![false]
    }
}

/// Quiet zone, `*`, gap, the upper-cased characters each with its gap, `*`,
/// quiet zone.
pub open spec fn code39_modules(s: Seq<char>) -> Seq<bool> {
    light(10) + star_modules() + seq![false] + data_modules(upper(s)) + star_modules() + light(10)
}

/// The table position of `c`, if Code 39 can carry it.
pub fn code39_index(c: char) -> (r: Option<usize>)
    ensures
        r matches Some(i) ==> index_of(c) == Some(i as int),
        r is None ==> index_of(c) is None,
{
    let mut i: usize = 0;
    while i < 43
        invariant
            i <= 43,
            index_of(c) == index_from(c, i as int),
        decreases 43 - i,
    {
        if CODE39_CHARS[i] == c {
            return Some(i);
        }
        i += 1;
    }
    None
}

/// Appends the modules of one character: each element `narrow` or `wide`
/// modules, alternating bar and space.
pub fn encode_code39_char(pattern: &[u8; 9], narrow: u8, wide: u8, modules: &mut Vec<bool>)
    ensures
        final(modules)@ == old(modules)@ + runs(
            pattern@.map_values(|e: u8| if e != 0 { wide as int } else { narrow as int }),
        ),
{
    let ghost w = pattern@.map_values(|e: u8| if e != 0 { wide as int } else { narrow as int });
    let ghost start = modules@;
    let mut k: usize = 0;
    assert(w.subrange(0, 0) =~= Seq::<int>::empty());
    assert(modules@ =~= start + runs(w.subrange(0, 0)));
    while k < 9
        invariant
            k <= 9,
            w == pattern@.map_values(|e: u8| if e != 0 { wide as int } else { narrow as int }),
            start == old(modules)@,
            modules@ == start + runs(w.subrange(0, k as int)),
        decreases 9 - k,
    {
        let width = if pattern[k] != 0 { wide } else { narrow };
        push_run(modules, k % 2 == 0, width as usize);
        assert(w.subrange(0, k + 1).drop_last() =~= w.subrange(0, k as int));
        k += 1;
    }
    assert(w.subrange(0, 9) =~= w);
}

/// Encodes text as Code 39 after upper-casing it; `None` when a character
/// is outside the alphabet.
pub fn encode_code39(text: &str) -> (r: Option<Barcode>)
    ensures
        r is Some <==> code39_valid(text@),
        r matches Some(b) ==> {
            &&& b.modules@ == code39_modules(text@)
            &&& b.text@ == upper(text@)
            &&& b.format == BarcodeFormat::Code39
        },
{
    let chars = chars_of(text);
    let ghost s = text@;
    let mut upper_text = String::new();
    let mut indexes: Vec<usize> = Vec::new();
    let mut k: usize = 0;
    while k < chars.len()
        invariant
            chars@ == s,
            s == text@,
            k <= s.len(),
            upper_text@ == upper(s.subrange(0, k as int)),
            indexes@.len() == k,
            forall|j: int| 0 <= j < k ==> #[trigger] index_of(upper_char(s[j])) == Some(
                indexes@[j] as int,
            ),
            forall|j: int| 0 <= j < k ==> #[trigger] indexes@[j] < 43,
        decreases s.len() - k,
    {
        let c = to_upper(chars[k]);
        match code39_index(c) {
            Some(i) => {
                proof {
                    index_from_in_table(c, 0);
                }
                indexes.push(i);
            },
            None => {
                assert(index_of(upper_char(s[k as int])) is None);
                assert(!code39_valid(text@)) by {
                    if code39_valid(text@) {
                        assert(0 <= k < text@.len());
                        assert(index_of(upper_char(text@[k as int])) is Some);
                    }
                }
                return None;
            },
        }
        push_char(&mut upper_text, c);
        k += 1;
        assert(upper_text@ =~= upper(s.subrange(0, k as int)));
    }
    assert(s.subrange(0, s.len() as int) =~= s);
    let ghost u = upper(s);

    let narrow: u8 = 1;
    let wide: u8 = 3;
    let mut modules: Vec<bool> = Vec::new();
    push_light(&mut modules, 10);
    encode_code39_char(&CODE39_STAR, narrow, wide, &mut modules);
    assert(CODE39_STAR@.map_values(|e: u8| if e != 0 { wide as int } else { narrow as int })
        =~= element_widths(CODE39_STAR@));
    modules.push(false);
    let ghost head = modules@;
    assert(u.subrange(0, 0) =~= Seq::<char>::empty());
    assert(modules@ =~= head + data_modules(u.subrange(0, 0)));
    let mut k: usize = 0;
    while k < indexes.len()
        invariant
            indexes@.len() == u.len(),
            u == upper(s),
            narrow == 1,
            wide == 3,
            k <= u.len(),
            forall|j: int| 0 <= j < u.len() ==> #[trigger] index_of(upper_char(s[j])) == Some(
                indexes@[j] as int,
            ),
            forall|j: int| 0 <= j < u.len() ==> #[trigger] indexes@[j] < 43,
            modules@ == head + data_modules(u.subrange(0, k as int)),
        decreases u.len() - k,
    {
        let ghost prev = modules@;
        let pattern = &CODE39_PATTERNS[indexes[k]];
        encode_code39_char(pattern, narrow, wide, &mut modules);
        modules.push(false);
        proof {
            assert(pattern@.map_values(|e: u8| if e != 0 { wide as int } else { narrow as int })
                =~= element_widths(pattern@));
            assert(u.subrange(0, k + 1).drop_last() =~= u.subrange(0, k as int));
            assert(u[k as int] == upper_char(s[k as int]));
        }
        k += 1;
    }
    assert(u.subrange(0, u.len() as int) =~= u);
    encode_code39_char(&CODE39_STAR, narrow, wide, &mut modules);
    push_light(&mut modules, 10);
    assert(modules@ =~= code39_modules(s));
    Some(Barcode { modules, text: upper_text, format: BarcodeFormat::Code39 })
}

/// Every character is one Code 39 carries as it stands (no case folding).
pub open spec fn in_code39_alphabet(s: Seq<char>) -> bool {
    forall|i: int| 0 <= i < s.len() ==> (#[trigger] index_of(s[i])) is Some
}

/// Whether every character, upper-cased, is in the alphabet.
pub fn code39_chars_valid(chars: &Vec<char>) -> (r: bool)
    ensures
        r == code39_valid(chars@),
{
    let mut k: usize = 0;
    while k < chars.len()
        invariant
            k <= chars@.len(),
            forall|j: int| 0 <= j < k ==> (#[trigger] index_of(upper_char(chars@[j]))) is Some,
        decreases chars@.len() - k,
    {
        if code39_index(to_upper(chars[k])).is_none() {
            assert(!code39_valid(chars@)) by {
                if code39_valid(chars@) {
                    assert(index_of(upper_char(chars@[k as int])) is Some);
                }
            }
            return false;
        }
        k += 1;
    }
    true
}

/// Whether every character, as it stands, is in the alphabet.
pub fn in_alphabet(chars: &Vec<char>) -> (r: bool)
    ensures
        r == in_code39_alphabet(chars@),
{
    let mut k: usize = 0;
    while k < chars.len()
        invariant
            k <= chars@.len(),
            forall|j: int| 0 <= j < k ==> (#[trigger] index_of(chars@[j])) is Some,
        decreases chars@.len() - k,
    {
        if code39_index(chars[k]).is_none() {
            assert(!in_code39_alphabet(chars@)) by {
                if in_code39_alphabet(chars@) {
                    assert(index_of(chars@[k as int]) is Some);
                }
            }
            return false;
        }
        k += 1;
    }
    true
}

/// A found position lies in the table.
proof fn index_from_in_table(c: char, i: int)
    ensures
        index_from(c, i) matches Some(j) ==> 0 <= j < 43,
    decreases 43 - i,
{
    if 0 <= i < 43 && CODE39_CHARS@[i] != c {
        index_from_in_table(c, i + 1);
    }
}

} // verus!
