//! The plain-value side of persistence: the names formats are stored
//! under, settings rebuilt from stored fields, and entry keys. Reading and
//! writing the store itself happens outside the library.
use vstd::prelude::*;
use vstd::string::StringExecFns;

use crate::app::BarcodeSettings;
use crate::format::BarcodeFormat;
use crate::text::chars_of;

verus! {

pub open spec fn format_key_of(f: BarcodeFormat) -> Seq<char> {
    match f {
        BarcodeFormat::Code128 => "code128"@,
        BarcodeFormat::Code39 => "code39"@,
        BarcodeFormat::Ean13 => "ean13"@,
        BarcodeFormat::UpcA => "upca"@,
    }
}

/// The format named by a stored key; Code 128 for a missing or unknown one.
pub open spec fn format_of_key(key: Option<Seq<char>>) -> BarcodeFormat {
    match key {
        Some(k) => if k == "code39"@ {
            BarcodeFormat::Code39
        } else if k == "ean13"@ {
            BarcodeFormat::Ean13
        } else if k == "upca"@ {
            BarcodeFormat::UpcA
        } else {
            BarcodeFormat::Code128
        },
        None => BarcodeFormat::Code128,
    }
}

pub open spec fn opt_view(key: Option<&str>) -> Option<Seq<char>> {
    match key {
        Some(k) => Some(k@),
        None => None,
    }
}

/// The name a format is stored under.
pub fn format_key(f: BarcodeFormat) -> (r: &'static str)
    ensures
        r@ == format_key_of(f),
{
    match f {
        BarcodeFormat::Code128 => "code128",
        BarcodeFormat::Code39 => "code39",
        BarcodeFormat::Ean13 => "ean13",
        BarcodeFormat::UpcA => "upca",
    }
}

/// Whether two strings hold the same characters.
pub fn same_text(a: &str, b: &str) -> (r: bool)
    ensures
        r == (a@ == b@),
{
    let x = chars_of(a);
    let y = chars_of(b);
    if x.len() != y.len() {
        return false;
    }
    let mut k: usize = 0;
    while k < x.len()
        invariant
            x@ == a@,
            y@ == b@,
            x@.len() == y@.len(),
            k <= x@.len(),
            forall|j: int| 0 <= j < k ==> x@[j] == y@[j],
        decreases x@.len() - k,
    {
        if x[k] != y[k] {
            assert(a@[k as int] != b@[k as int]);
            return false;
        }
        k += 1;
    }
    assert(x@ =~= y@);
    true
}

/// The format named by a stored key; Code 128 for a missing or unknown one.
pub fn format_from_key(key: Option<&str>) -> (r: BarcodeFormat)
    ensures
        r == format_of_key(opt_view(key)),
{
    match key {
        Some(k) => if same_text(k, "code39") {
            BarcodeFormat::Code39
        } else if same_text(k, "ean13") {
            BarcodeFormat::Ean13
        } else if same_text(k, "upca") {
            BarcodeFormat::UpcA
        } else {
            BarcodeFormat::Code128
        },
        None => BarcodeFormat::Code128,
    }
}

/// Settings rebuilt from stored fields, each missing one at its default;
/// stored numbers are cut to the field's width.
pub fn settings_from_fields(
    format: Option<&str>,
    bar_width: Option<u64>,
    bar_height: Option<u64>,
    auto_format: Option<bool>,
) -> (r: BarcodeSettings)
    ensures
        r.format == format_of_key(opt_view(format)),
        r.bar_width as int == (match bar_width {
            Some(w) => w % 256,
            None => 2,
        }),
        r.bar_height as int == (match bar_height {
            Some(h) => h % 65536,
            None => 200,
        }),
        r.auto_format == (match auto_format {
            Some(a) => a,
            None => true,
        }),
{
    let width: u8 = match bar_width {
        Some(w) => (w % 256) as u8,
        None => 2,
    };
    let height: u16 = match bar_height {
        Some(h) => (h % 65536) as u16,
        None => 200,
    };
    let auto = match auto_format {
        Some(a) => a,
        None => true,
    };
    BarcodeSettings { bar_width: width, bar_height: height, format: format_from_key(format), auto_format: auto }
}

/// The key a saved entry is stored under: `code.` and its name.
pub fn code_key(name: &str) -> (r: String)
    ensures
        r@ == "code."@ + name@,
{
    String::from_str("code.").concat(name)
}

/// Storing a format under its name and reading the name back gives the
/// same format.
pub proof fn lemma_format_key_round_trip(f: BarcodeFormat)
    ensures
        format_of_key(Some(format_key_of(f))) == f,
{
    reveal_strlit("code128");
    reveal_strlit("code39");
    reveal_strlit("ean13");
    reveal_strlit("upca");
    // The four names differ in length.
    assert("code128"@.len() == 7);
    assert("code39"@.len() == 6);
    assert("ean13"@.len() == 5);
    assert("upca"@.len() == 4);
}

} // verus!
