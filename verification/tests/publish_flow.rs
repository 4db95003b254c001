//! The two-phase publish workflow: manifest first, content later.

use bindle::error::RegistryError;
use bindle::invoice::{Invoice, Label, Parcel};
use bindle::invoice_store::InvoiceStore;
use bindle::parcel_store::ParcelStore;
use bindle::publish::{create_invoice, missing_parcels};

fn sha_hex(bytes: &[u8]) -> String {
    format!("{:x}", <sha2::Sha256 as sha2::Digest>::digest(bytes))
}

fn label_for(bytes: &[u8], name: &str, media_type: &str) -> Label {
    Label {
        sha256: sha_hex(bytes),
        media_type: media_type.to_string(),
        name: name.to_string(),
        size: bytes.len() as u64,
        feature: None,
    }
}

fn parcel_for(bytes: &[u8], name: &str, media_type: &str) -> Parcel {
    Parcel { label: label_for(bytes, name, media_type), conditions: None }
}

fn invoice_with(name: &str, version: &str, parcels: Vec<Parcel>) -> Invoice {
    Invoice {
        bindle_version: "1.0.0".to_string(),
        name: name.to_string(),
        version: version.to_string(),
        description: None,
        parcels,
        yanked: false,
    }
}

#[test]
fn missing_parcel_detection() {
    let mut invoices = InvoiceStore::new();
    let mut parcels = ParcelStore::new();

    let stored_bytes = b"first parcel".to_vec();
    let absent_bytes = b"second parcel".to_vec();
    let stored = parcel_for(&stored_bytes, "stored.bin", "application/octet-stream");
    let absent = parcel_for(&absent_bytes, "absent.bin", "application/octet-stream");
    assert!(parcels.put(&stored.label, stored_bytes).is_ok());

    let absent_sha = absent.label.sha256.clone();
    let inv = invoice_with("n", "1.0.0", vec![stored, absent]);
    let response = create_invoice(&mut invoices, &parcels, inv).expect("creation must succeed");

    let missing = response.missing.expect("one parcel must be reported missing");
    assert_eq!(missing.len(), 1);
    assert_eq!(missing[0].sha256, absent_sha);
    assert_eq!(missing[0].name, "absent.bin");

    // uploading the content completes the release ...
    assert!(parcels.put(&missing[0], absent_bytes).is_ok());
    assert!(parcels.contains(&absent_sha));

    // ... while the stored invoice document is unchanged
    let doc = invoices
        .get(&"n".to_string(), &"1.0.0".to_string())
        .expect("invoice must resolve");
    assert_eq!(doc.parcels.len(), 2);
    let recheck = missing_parcels(doc, &parcels);
    assert!(recheck.missing.is_empty());
}

#[test]
fn create_invoice_with_all_content_present_is_complete() {
    let mut invoices = InvoiceStore::new();
    let mut parcels = ParcelStore::new();
    let bytes = b"already here".to_vec();
    let parcel = parcel_for(&bytes, "here.bin", "application/octet-stream");
    assert!(parcels.put(&parcel.label, bytes).is_ok());

    let inv = invoice_with("n", "1.0.0", vec![parcel]);
    let response = create_invoice(&mut invoices, &parcels, inv).expect("creation must succeed");
    assert!(response.missing.is_none());
    assert_eq!(response.invoice.name, "n");
}

#[test]
fn create_invoice_propagates_conflict() {
    let mut invoices = InvoiceStore::new();
    let parcels = ParcelStore::new();
    let first = invoice_with("n", "1.0.0", Vec::new());
    assert!(create_invoice(&mut invoices, &parcels, first).is_ok());
    let second = invoice_with("n", "1.0.0", Vec::new());
    assert!(matches!(
        create_invoice(&mut invoices, &parcels, second),
        Err(RegistryError::Conflict)
    ));
}

#[test]
fn end_to_end_publish_upload_fetch() {
    let mut invoices = InvoiceStore::new();
    let mut parcels = ParcelStore::new();

    let content = b"warp core firmware image".to_vec();
    let parcel = parcel_for(&content, "warpcore.img", "application/toml");
    let sha = parcel.label.sha256.clone();

    let inv = invoice_with("enterprise.com/warpcore", "1.0.0", vec![parcel]);
    let response = create_invoice(&mut invoices, &parcels, inv).expect("publish must succeed");
    let missing = response.missing.expect("the parcel is not uploaded yet");
    assert_eq!(missing.len(), 1);
    assert_eq!(missing[0].sha256, sha);

    assert!(parcels.put(&missing[0], content.clone()).is_ok());

    let doc = invoices
        .get(&"enterprise.com/warpcore".to_string(), &"1.0.0".to_string())
        .expect("invoice must resolve");
    let fetched = parcels
        .get(&doc.parcels[0].label.sha256)
        .expect("uploaded parcel must resolve");
    assert_eq!(fetched.content, content);
    assert_eq!(fetched.label.media_type, "application/toml");
}
