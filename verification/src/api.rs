//! Request and response types of the registry's outward interface, and
//! the query entry point that resolves raw options into a search.
//!
//! A transport layer maps these to its wire format; here they are plain
//! values with exact contracts.

use vstd::prelude::*;

use crate::error::{IntegrityViolation, RegistryError, ValidationIssue};
use crate::invoice::{invoices_view, Invoice, Label};
use crate::invoice_store::{catalog_map, InvoiceStore};
use crate::search::{query, query_matches, query_page, selector_of, QueryResult, SearchOptions,
    SelectorV, DEFAULT_QUERY_LIMIT};

verus! {

/// Response to an invoice creation request.  Because invoices can be
/// created before their parcels are uploaded, this tells the caller
/// which parcels the bindle still misses: `None` means the release is
/// complete.
#[derive(Debug)]
pub struct InvoiceCreateResponse {
    pub invoice: Invoice,
    pub missing: Option<Vec<Label>>,
}

/// Response to a missing-parcels request: the labels whose content is
/// still absent from the parcel store.
#[derive(Debug)]
pub struct MissingParcelsResponse {
    pub missing: Vec<Label>,
}

/// A string error message as the boundary reports it to a client.
#[derive(Debug)]
pub struct ErrorResponse {
    pub error: String,
}

/// Raw options of a query request, each still optional; the boundary
/// layer also accepts the short aliases `q`, `v`, `o` and `l` for the
/// first four.
#[derive(Debug)]
pub struct QueryOptions {
    pub query: Option<String>,
    pub version: Option<String>,
    pub offset: Option<u64>,
    pub limit: Option<u8>,
    pub strict: Option<bool>,
    pub yanked: Option<bool>,
}

/// How raw options resolve against the default policy.
pub open spec fn resolved_options(qo: QueryOptions) -> SearchOptions {
    SearchOptions {
        limit: match qo.limit {
            Some(l) => l,
            None => DEFAULT_QUERY_LIMIT,
        },
        offset: match qo.offset {
            Some(o) => o,
            None => 0,
        },
        strict: match qo.strict {
            Some(s) => s,
            None => false,
        },
        yanked: match qo.yanked {
            Some(y) => y,
            None => false,
        },
    }
}

/// The free-text term of a raw query; absent means "match all".
pub open spec fn query_term(qo: QueryOptions) -> Seq<char> {
    match qo.query {
        Some(q) => q@,
        None => Seq::empty(),
    }
}

/// The version filter of a raw query; absent means "no filter".
pub open spec fn query_version(qo: QueryOptions) -> Seq<char> {
    match qo.version {
        Some(v) => v@,
        None => Seq::empty(),
    }
}

/// The selector a raw query resolves to.
pub open spec fn query_selector(qo: QueryOptions) -> SelectorV {
    selector_of(query_term(qo), query_version(qo), resolved_options(qo))
}

impl From<QueryOptions> for SearchOptions {
    /// Resolves raw options against the default [`SearchOptions`].
    fn from(qo: QueryOptions) -> (r: SearchOptions) {
        let defaults = SearchOptions::default();
        SearchOptions {
            limit: match qo.limit {
                Some(l) => l,
                None => defaults.limit,
            },
            offset: match qo.offset {
                Some(o) => o,
                None => defaults.offset,
            },
            strict: match qo.strict {
                Some(s) => s,
                None => defaults.strict,
            },
            yanked: match qo.yanked {
                Some(y) => y,
                None => defaults.yanked,
            },
        }
    }
}

impl vstd::std_specs::convert::FromSpecImpl<QueryOptions> for SearchOptions {
    open spec fn obeys_from_spec() -> bool {
        true
    }

    open spec fn from_spec(qo: QueryOptions) -> SearchOptions {
        resolved_options(qo)
    }
}

/// Runs a raw query request against the catalog: resolves the options,
/// then pages through the matching invoices.
pub fn execute_query(store: &InvoiceStore, qo: QueryOptions) -> (r: QueryResult)
    ensures
        r.total == query_matches(store@, query_selector(qo)).len(),
        invoices_view(r.invoices@) == query_page(
            store@,
            query_selector(qo),
            resolved_options(qo).offset as int,
            resolved_options(qo).limit as int,
        ),
{
    let QueryOptions { query: q, version: v, offset, limit, strict, yanked } = qo;
    let term = match q {
        Some(t) => t,
        None => String::new(),
    };
    let version_filter = match v {
        Some(t) => t,
        None => String::new(),
    };
    let opts = SearchOptions::from(QueryOptions {
        query: None,
        version: None,
        offset,
        limit,
        strict,
        yanked,
    });
    proof {
        assert(opts == resolved_options(qo));
        assert(term@ == query_term(qo));
        assert(version_filter@ == query_version(qo));
    }
    query(store, &term, &version_filter, &opts)
}

/// Resolves `(name, version)` under the boundary's yank policy: the
/// store itself is yank-agnostic, but normal resolution suppresses a
/// yanked invoice — it reports not-found unless the caller explicitly
/// asks to see yanked content.
pub fn fetch_invoice<'a>(
    store: &'a InvoiceStore,
    name: &String,
    version: &String,
    include_yanked: bool,
) -> (r: Result<&'a Invoice, RegistryError>)
    requires
        store.wf(),
    ensures
        match r {
            Ok(inv) => {
                &&& catalog_map(store@).contains_key((name@, version@))
                &&& inv@ == catalog_map(store@)[(name@, version@)]
                &&& (inv@.yanked ==> include_yanked)
            },
            Err(RegistryError::NotFound) =>
                !catalog_map(store@).contains_key((name@, version@))
                || (catalog_map(store@)[(name@, version@)].yanked && !include_yanked),
            Err(_) => false,
        },
{
    match store.get(name, version) {
        Ok(inv) => {
            if inv.yanked && !include_yanked {
                Err(RegistryError::NotFound)
            } else {
                Ok(inv)
            }
        },
        Err(e) => Err(e),
    }
}

/// The message text reported for each error.
pub open spec fn error_message(e: RegistryError) -> Seq<char> {
    match e {
        RegistryError::Validation(ValidationIssue::EmptyName) =>
            "invoice validation failed: name must not be empty"@,
        RegistryError::Validation(ValidationIssue::MalformedVersion) =>
            "invoice validation failed: version is not a semantic version"@,
        RegistryError::Validation(ValidationIssue::MalformedLabel) =>
            "invoice validation failed: a parcel label is incomplete"@,
        RegistryError::Conflict =>
            "invoice already exists under this name and version"@,
        RegistryError::Integrity(IntegrityViolation::DigestMismatch { declared, computed }) =>
            "parcel integrity error: declared digest "@ + declared@
                + " does not match computed digest "@ + computed@,
        RegistryError::Integrity(IntegrityViolation::SizeMismatch { .. }) =>
            "parcel integrity error: declared size does not match uploaded byte count"@,
        RegistryError::NotFound => "resource not found"@,
        RegistryError::Storage => "storage backend error"@,
    }
}

impl RegistryError {
    /// Renders this error as the boundary's message document.
    pub fn to_response(&self) -> (r: ErrorResponse)
        ensures
            r.error@ == error_message(*self),
    {
        let error = match self {
            RegistryError::Validation(ValidationIssue::EmptyName) =>
                String::from_str("invoice validation failed: name must not be empty"),
            RegistryError::Validation(ValidationIssue::MalformedVersion) =>
                String::from_str("invoice validation failed: version is not a semantic version"),
            RegistryError::Validation(ValidationIssue::MalformedLabel) =>
                String::from_str("invoice validation failed: a parcel label is incomplete"),
            RegistryError::Conflict =>
                String::from_str("invoice already exists under this name and version"),
            RegistryError::Integrity(IntegrityViolation::DigestMismatch { declared, computed }) =>
                String::from_str("parcel integrity error: declared digest ")
                    .concat(declared.as_str())
                    .concat(" does not match computed digest ")
                    .concat(computed.as_str()),
            RegistryError::Integrity(IntegrityViolation::SizeMismatch { .. }) =>
                String::from_str("parcel integrity error: declared size does not match uploaded byte count"),
            RegistryError::NotFound => String::from_str("resource not found"),
            RegistryError::Storage => String::from_str("storage backend error"),
        };
        ErrorResponse { error }
    }
}

} // verus!
