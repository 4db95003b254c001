//! Behaviour of the parcel store and the invoice store.

use bindle::error::{IntegrityViolation, RegistryError, ValidationIssue};
use bindle::invoice::{Invoice, Label, Parcel};
use bindle::invoice_store::InvoiceStore;
use bindle::parcel_store::ParcelStore;

fn sha_hex(bytes: &[u8]) -> String {
    format!("{:x}", <sha2::Sha256 as sha2::Digest>::digest(bytes))
}

fn label_for(bytes: &[u8], name: &str, media_type: &str) -> Label {
    Label {
        sha256: sha_hex(bytes),
        media_type: media_type.to_string(),
        name: name.to_string(),
        size: bytes.len() as u64,
        feature: None,
    }
}

fn invoice_with(name: &str, version: &str, parcels: Vec<Parcel>) -> Invoice {
    Invoice {
        bindle_version: "1.0.0".to_string(),
        name: name.to_string(),
        version: version.to_string(),
        description: None,
        parcels,
        yanked: false,
    }
}

#[test]
fn put_is_idempotent_dedup() {
    let mut store = ParcelStore::new();
    let content = b"dilithium chamber calibration tables".to_vec();
    let label = label_for(&content, "calibration.dat", "application/octet-stream");

    assert!(store.put(&label, content.clone()).is_ok());
    assert!(store.contains(&label.sha256));
    // a duplicate upload of identical content succeeds without change
    assert!(store.put(&label, content.clone()).is_ok());
    let stored = store.get(&label.sha256).expect("stored parcel must resolve");
    assert_eq!(stored.content, content);
    assert_eq!(stored.label.sha256, label.sha256);
}

#[test]
fn put_rejects_digest_mismatch() {
    let mut store = ParcelStore::new();
    let declared = sha_hex(b"abc");
    let bytes = b"xyz".to_vec();
    let computed = sha_hex(&bytes);
    let label = Label {
        sha256: declared.clone(),
        media_type: "text/plain".to_string(),
        name: "mislabeled.txt".to_string(),
        size: bytes.len() as u64,
        feature: None,
    };

    let err = store.put(&label, bytes).expect_err("mismatched digest must be rejected");
    match err {
        RegistryError::Integrity(IntegrityViolation::DigestMismatch {
            declared: d,
            computed: c,
        }) => {
            assert_eq!(d, declared);
            assert_eq!(c, computed);
        }
        other => panic!("expected a digest mismatch, got {:?}", other),
    }
    // no content became readable under either hash
    assert!(!store.contains(&declared));
    assert!(!store.contains(&computed));
    assert!(matches!(store.get(&declared), Err(RegistryError::NotFound)));
    assert!(matches!(store.get(&computed), Err(RegistryError::NotFound)));
}

#[test]
fn put_rejects_size_mismatch() {
    let mut store = ParcelStore::new();
    let bytes = b"four".to_vec();
    let mut label = label_for(&bytes, "four.txt", "text/plain");
    label.size = 5;

    let err = store.put(&label, bytes).expect_err("wrong size must be rejected");
    assert!(matches!(
        err,
        RegistryError::Integrity(IntegrityViolation::SizeMismatch {
            declared_size: 5,
            actual_size: 4,
        })
    ));
    assert!(!store.contains(&label.sha256));
}

#[test]
fn create_is_immutable() {
    let mut store = InvoiceStore::new();
    let first = invoice_with("n", "1.0.0", Vec::new());
    assert!(store.create(first).is_ok());

    let mut second = invoice_with("n", "1.0.0", Vec::new());
    second.description = Some("an impostor".to_string());
    let err = store.create(second).expect_err("duplicate key must conflict");
    assert!(matches!(err, RegistryError::Conflict));

    let original = store
        .get(&"n".to_string(), &"1.0.0".to_string())
        .expect("original must still resolve");
    assert!(original.description.is_none());
}

#[test]
fn create_validates_shape() {
    let mut store = InvoiceStore::new();

    let unnamed = invoice_with("", "1.0.0", Vec::new());
    assert!(matches!(
        store.create(unnamed),
        Err(RegistryError::Validation(ValidationIssue::EmptyName))
    ));

    let unversioned = invoice_with("n", "one point oh", Vec::new());
    assert!(matches!(
        store.create(unversioned),
        Err(RegistryError::Validation(ValidationIssue::MalformedVersion))
    ));

    let bad_label = Parcel {
        label: Label {
            sha256: "not a digest".to_string(),
            media_type: "text/plain".to_string(),
            name: "p".to_string(),
            size: 0,
            feature: None,
        },
        conditions: None,
    };
    let mislabeled = invoice_with("n", "1.0.0", vec![bad_label]);
    assert!(matches!(
        store.create(mislabeled),
        Err(RegistryError::Validation(ValidationIssue::MalformedLabel))
    ));

    assert!(matches!(
        store.get(&"n".to_string(), &"1.0.0".to_string()),
        Err(RegistryError::NotFound)
    ));
}

#[test]
fn yank_is_terminal_and_idempotent() {
    let mut store = InvoiceStore::new();
    let name = "n".to_string();
    let version = "1.0.0".to_string();
    assert!(store.create(invoice_with("n", "1.0.0", Vec::new())).is_ok());

    assert!(store.yank(&name, &version).is_ok());
    let after_first = store.get(&name, &version).expect("yanked invoice still resolves");
    assert!(after_first.yanked);

    // a second yank succeeds with no observable difference
    assert!(store.yank(&name, &version).is_ok());
    let after_second = store.get(&name, &version).expect("yanked invoice still resolves");
    assert!(after_second.yanked);

    // the key stays taken forever
    assert!(matches!(
        store.create(invoice_with("n", "1.0.0", Vec::new())),
        Err(RegistryError::Conflict)
    ));
}

#[test]
fn yank_of_unknown_invoice_is_not_found() {
    let mut store = InvoiceStore::new();
    assert!(matches!(
        store.yank(&"ghost".to_string(), &"1.0.0".to_string()),
        Err(RegistryError::NotFound)
    ));
}
