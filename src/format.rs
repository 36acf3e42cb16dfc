//! The barcode formats and their names.
use vstd::prelude::*;

verus! {

/// The four symbologies the encoder knows.
#[derive(Debug, Clone, Copy, PartialEq, Eq, Structural)]
pub enum BarcodeFormat {
    Code128,
    Code39,
    Ean13,
    UpcA,
}

pub open spec fn label_of(f: BarcodeFormat) -> Seq<char> {
    match f {
        BarcodeFormat::Code128 => "Code 128"@,
        BarcodeFormat::Code39 => "Code 39"@,
        BarcodeFormat::Ean13 => "EAN-13"@,
        BarcodeFormat::UpcA => "UPC-A"@,
    }
}

pub open spec fn short_of(f: BarcodeFormat) -> Seq<char> {
    match f {
        BarcodeFormat::Code128 => "C128"@,
        BarcodeFormat::Code39 => "C39"@,
        BarcodeFormat::Ean13 => "EAN13"@,
        BarcodeFormat::UpcA => "UPCA"@,
    }
}

/// Cyclic successor: Code128, Code39, Ean13, UpcA, then Code128 again.
pub open spec fn next_of(f: BarcodeFormat) -> BarcodeFormat {
    match f {
        BarcodeFormat::Code128 => BarcodeFormat::Code39,
        BarcodeFormat::Code39 => BarcodeFormat::Ean13,
        BarcodeFormat::Ean13 => BarcodeFormat::UpcA,
        BarcodeFormat::UpcA => BarcodeFormat::Code128,
    }
}

impl BarcodeFormat {
    /// The display label.
    pub fn label(&self) -> (r: &'static str)
        ensures
            r@ == label_of(*self),
    {
        match self {
            BarcodeFormat::Code128 => "Code 128",
            BarcodeFormat::Code39 => "Code 39",
            BarcodeFormat::Ean13 => "EAN-13",
            BarcodeFormat::UpcA => "UPC-A",
        }
    }

    /// The short tag.
    pub fn short(&self) -> (r: &'static str)
        ensures
            r@ == short_of(*self),
    {
        match self {
            BarcodeFormat::Code128 => "C128",
            BarcodeFormat::Code39 => "C39",
            BarcodeFormat::Ean13 => "EAN13",
            BarcodeFormat::UpcA => "UPCA",
        }
    }

    /// Every format, in selection order.
    pub fn all() -> (r: &'static [BarcodeFormat])
        ensures
            r@ == seq![
                BarcodeFormat::Code128,
                BarcodeFormat::Code39,
                BarcodeFormat::Ean13,
                BarcodeFormat::UpcA,
            ],
    {
        &[BarcodeFormat::Code128, BarcodeFormat::Code39, BarcodeFormat::Ean13, BarcodeFormat::UpcA]
    }

    /// The next format in the selection cycle.
    pub fn next(&self) -> (r: BarcodeFormat)
        ensures
            r == next_of(*self),
    {
        match self {
            BarcodeFormat::Code128 => BarcodeFormat::Code39,
            BarcodeFormat::Code39 => BarcodeFormat::Ean13,
            BarcodeFormat::Ean13 => BarcodeFormat::UpcA,
            BarcodeFormat::UpcA => BarcodeFormat::Code128,
        }
    }
}

/// Stepping through the cycle four times returns to the start.
pub proof fn lemma_next_cycles(f: BarcodeFormat)
    ensures
        next_of(next_of(next_of(next_of(f)))) == f,
        next_of(f) != f,
{
}

} // verus!
