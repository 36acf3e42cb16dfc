//! Barcode encoding for Code 128, Code 39, EAN-13 and UPC-A, with the
//! state of an application that enters, shows and keeps barcodes.
pub mod app;
pub mod barcode;
pub mod bars;
pub mod code128;
pub mod code39;
pub mod ean;
pub mod format;
pub mod stored;
pub mod text;

pub use app::{AppState, BarcodeApp, BarcodeSettings, MenuItem, SavedBarcode};
pub use barcode::{auto_detect, encode, is_valid, Barcode};
pub use ean::ean13_check_digit;
pub use format::BarcodeFormat;
