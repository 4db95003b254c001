//! The query layer: matching, yank filtering, stable pagination, and
//! the resolution of raw query options.

use bindle::api::{ErrorResponse, QueryOptions};
use bindle::error::{IntegrityViolation, RegistryError};
use bindle::invoice::Invoice;
use bindle::invoice_store::InvoiceStore;
use bindle::search::{query, SearchOptions};

fn invoice_named(name: &str, version: &str, description: Option<&str>) -> Invoice {
    Invoice {
        bindle_version: "1.0.0".to_string(),
        name: name.to_string(),
        version: version.to_string(),
        description: description.map(|d| d.to_string()),
        parcels: Vec::new(),
        yanked: false,
    }
}

fn catalog() -> InvoiceStore {
    let mut store = InvoiceStore::new();
    assert!(store.create(invoice_named("alpha", "1.0.0", None)).is_ok());
    assert!(store.create(invoice_named("beta", "1.0.0", Some("navigation core"))).is_ok());
    assert!(store.create(invoice_named("core", "1.0.0", None)).is_ok());
    assert!(store.create(invoice_named("warpcore", "2.0.0", None)).is_ok());
    store
}

fn names(result: &[Invoice]) -> Vec<String> {
    result.iter().map(|i| i.name.clone()).collect()
}

fn all() -> String {
    String::new()
}

#[test]
fn pagination_is_stable() {
    let store = catalog();
    let base = SearchOptions::default();

    let first = query(&store, &all(), &all(), &SearchOptions { offset: 0, limit: 2, ..base });
    let second = query(&store, &all(), &all(), &SearchOptions { offset: 2, limit: 2, ..base });
    let whole = query(&store, &all(), &all(), &SearchOptions { offset: 0, limit: 4, ..base });

    assert_eq!(first.total, 4);
    assert_eq!(second.total, 4);
    assert_eq!(names(&first.invoices), vec!["alpha", "beta"]);
    assert_eq!(names(&second.invoices), vec!["core", "warpcore"]);
    let mut concatenated = names(&first.invoices);
    concatenated.extend(names(&second.invoices));
    assert_eq!(concatenated, names(&whole.invoices));
}

#[test]
fn offset_past_the_matches_yields_an_empty_page() {
    let store = catalog();
    let base = SearchOptions::default();
    let page = query(&store, &all(), &all(), &SearchOptions { offset: 100, limit: 2, ..base });
    assert_eq!(page.total, 4);
    assert!(page.invoices.is_empty());
}

#[test]
fn loose_and_strict_term_matching() {
    let store = catalog();
    let opts = SearchOptions::default();

    // loose matching finds the term inside names and descriptions
    let loose = query(&store, &"core".to_string(), &all(), &opts);
    assert_eq!(names(&loose.invoices), vec!["beta", "core", "warpcore"]);

    // strict matching requires the exact name
    let strict = query(
        &store,
        &"core".to_string(),
        &all(),
        &SearchOptions { strict: true, ..opts },
    );
    assert_eq!(names(&strict.invoices), vec!["core"]);
}

#[test]
fn version_filter_is_exact() {
    let store = catalog();
    let opts = SearchOptions::default();
    let v2 = query(&store, &all(), &"2.0.0".to_string(), &opts);
    assert_eq!(names(&v2.invoices), vec!["warpcore"]);
}

#[test]
fn yank_filtering() {
    let mut store = catalog();
    assert!(store.yank(&"core".to_string(), &"1.0.0".to_string()).is_ok());
    let opts = SearchOptions::default();

    // the default policy excludes the yanked invoice
    let default_view = query(&store, &all(), &all(), &opts);
    assert_eq!(names(&default_view.invoices), vec!["alpha", "beta", "warpcore"]);
    assert_eq!(default_view.total, 3);

    // asking for yanked results includes it
    let opted_in = query(&store, &all(), &all(), &SearchOptions { yanked: true, ..opts });
    assert_eq!(names(&opted_in.invoices), vec!["alpha", "beta", "core", "warpcore"]);

    // a direct read is yank-agnostic either way
    let doc = store
        .get(&"core".to_string(), &"1.0.0".to_string())
        .expect("yanked invoice still resolves");
    assert!(doc.yanked);
}

#[test]
fn fetch_suppresses_yanked_unless_requested() {
    let mut store = catalog();
    let name = "core".to_string();
    let version = "1.0.0".to_string();
    assert!(store.yank(&name, &version).is_ok());

    assert!(matches!(
        bindle::api::fetch_invoice(&store, &name, &version, false),
        Err(bindle::error::RegistryError::NotFound)
    ));
    let shown = bindle::api::fetch_invoice(&store, &name, &version, true)
        .expect("explicit request must still resolve the yanked invoice");
    assert!(shown.yanked);
    assert!(matches!(
        bindle::api::fetch_invoice(&store, &"ghost".to_string(), &version, true),
        Err(bindle::error::RegistryError::NotFound)
    ));
}

#[test]
fn query_options_resolve_against_defaults() {
    let empty = QueryOptions {
        query: None,
        version: None,
        offset: None,
        limit: None,
        strict: None,
        yanked: None,
    };
    assert_eq!(SearchOptions::from(empty), SearchOptions::default());

    let explicit = QueryOptions {
        query: Some("core".to_string()),
        version: Some("1.0.0".to_string()),
        offset: Some(7),
        limit: Some(3),
        strict: Some(true),
        yanked: Some(true),
    };
    assert_eq!(
        SearchOptions::from(explicit),
        SearchOptions { limit: 3, offset: 7, strict: true, yanked: true },
    );
}

#[test]
fn execute_query_uses_raw_options() {
    let store = catalog();
    let result = bindle::api::execute_query(
        &store,
        QueryOptions {
            query: Some("core".to_string()),
            version: None,
            offset: Some(1),
            limit: Some(1),
            strict: None,
            yanked: None,
        },
    );
    assert_eq!(result.total, 3);
    assert_eq!(names(&result.invoices), vec!["core"]);
}

#[test]
fn error_responses_carry_detail() {
    let err = RegistryError::Integrity(IntegrityViolation::DigestMismatch {
        declared: "aa".to_string(),
        computed: "bb".to_string(),
    });
    let ErrorResponse { error } = err.to_response();
    assert_eq!(
        error,
        "parcel integrity error: declared digest aa does not match computed digest bb",
    );
    assert_eq!(
        RegistryError::Conflict.to_response().error,
        "invoice already exists under this name and version",
    );
}
