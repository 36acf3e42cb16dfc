use barcode_generator::{BarcodeFormat, BarcodeSettings, MenuItem};

#[test]
fn format_labels_and_tags() {
    assert_eq!(BarcodeFormat::Code128.label(), "Code 128");
    assert_eq!(BarcodeFormat::Code39.label(), "Code 39");
    assert_eq!(BarcodeFormat::Ean13.label(), "EAN-13");
    assert_eq!(BarcodeFormat::UpcA.label(), "UPC-A");
    assert_eq!(BarcodeFormat::Code128.short(), "C128");
    assert_eq!(BarcodeFormat::Code39.short(), "C39");
    assert_eq!(BarcodeFormat::Ean13.short(), "EAN13");
    assert_eq!(BarcodeFormat::UpcA.short(), "UPCA");
}

#[test]
fn format_cycle() {
    assert_eq!(BarcodeFormat::Code128.next(), BarcodeFormat::Code39);
    assert_eq!(BarcodeFormat::Code39.next(), BarcodeFormat::Ean13);
    assert_eq!(BarcodeFormat::Ean13.next(), BarcodeFormat::UpcA);
    assert_eq!(BarcodeFormat::UpcA.next(), BarcodeFormat::Code128);
    for f in BarcodeFormat::all() {
        assert_eq!(f.next().next().next().next(), *f);
    }
    assert_eq!(BarcodeFormat::all().len(), 4);
    assert_eq!(BarcodeFormat::all()[0], BarcodeFormat::Code128);
}

#[test]
fn menu_items() {
    let items = MenuItem::all();
    assert_eq!(items.len(), 4);
    let labels: Vec<&str> = items.iter().map(|m| m.label()).collect();
    assert_eq!(labels, vec!["New Barcode", "Saved Codes", "Settings", "Help"]);
}

#[test]
fn default_settings() {
    let s = BarcodeSettings::default();
    assert_eq!(s.bar_width, 2);
    assert_eq!(s.bar_height, 200);
    assert_eq!(s.format, BarcodeFormat::Code128);
    assert!(s.auto_format);
}
