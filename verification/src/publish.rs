//! The publish orchestrator.
//!
//! Publishing is two-phase: the manifest is recorded first, the content
//! uploaded later.  Creating an invoice therefore answers with the
//! invoice *and* the labels of the referenced parcels whose content the
//! parcel store does not yet hold, so a caller knows whether the release
//! is complete or still needs uploads.  Completeness is a derived fact,
//! never stored: it can be recomputed at any time against the parcel
//! store, while the invoice document itself stays immutable.

use vstd::prelude::*;

use crate::api::{InvoiceCreateResponse, MissingParcelsResponse};
use crate::error::RegistryError;
use crate::invoice::{invoice_key, invoice_wf, validation_verdict, Invoice, Label, LabelV, ParcelV};
use crate::invoice_store::{catalog_map, create_effect, create_ok, InvoiceStore};
use crate::parcel_store::{ParcelStore, StoredParcelV};

verus! {

/// The views of a sequence of labels.
pub open spec fn labels_view(s: Seq<Label>) -> Seq<LabelV> {
    s.map_values(|l: Label| l@)
}

/// Taking views commutes with appending a label.
pub proof fn lemma_labels_view_push(s: Seq<Label>, x: Label)
    ensures
        labels_view(s.push(x)) == labels_view(s).push(x@),
{
    assert(labels_view(s.push(x)) =~= labels_view(s).push(x@));
}

/// The labels among `parcels` whose content the store map `m` does not
/// hold, in invoice order.
pub open spec fn missing_from(
    parcels: Seq<ParcelV>,
    m: Map<Seq<char>, StoredParcelV>,
) -> Seq<LabelV>
    decreases parcels.len(),
{
    if parcels.len() == 0 {
        Seq::empty()
    } else {
        let rest = missing_from(parcels.drop_last(), m);
        if !m.contains_key(parcels.last().label.sha256) {
            rest.push(parcels.last().label)
        } else {
            rest
        }
    }
}

/// The labels of the parcels referenced by `inv` whose content
/// `parcels` does not yet hold.
#[verifier::loop_isolation(false)]
pub fn compute_missing(inv: &Invoice, parcels: &ParcelStore) -> (r: Vec<Label>)
    requires
        parcels.wf(),
    ensures
        labels_view(r@) == missing_from(inv@.parcels, parcels@),
{
    let mut missing: Vec<Label> = Vec::new();
    let mut i: usize = 0;
    let n = inv.parcels.len();
    while i < n
        invariant
            0 <= i <= n,
            labels_view(missing@) == missing_from(inv@.parcels.subrange(0, i as int), parcels@),
        decreases n - i,
    {
        let ghost prefix = inv@.parcels.subrange(0, i as int);
        let ghost prefix1 = inv@.parcels.subrange(0, i as int + 1);
        proof {
            assert(prefix1.drop_last() =~= prefix);
            assert(prefix1.last() == inv@.parcels[i as int]);
        }
        if !parcels.contains(&inv.parcels[i].label.sha256) {
            let d = inv.parcels[i].label.duplicate();
            proof {
                lemma_labels_view_push(missing@, d);
            }
            missing.push(d);
        }
        i = i + 1;
    }
    proof {
        assert(inv@.parcels.subrange(0, n as int) =~= inv@.parcels);
    }
    missing
}

/// Recomputes the missing set of an invoice on demand: the invoice
/// document never changes, but its completeness does as parcels arrive,
/// so a client can ask again at any time.
pub fn missing_parcels(inv: &Invoice, parcels: &ParcelStore) -> (r: MissingParcelsResponse)
    requires
        parcels.wf(),
    ensures
        labels_view(r.missing@) == missing_from(inv@.parcels, parcels@),
{
    MissingParcelsResponse { missing: compute_missing(inv, parcels) }
}

/// Creates `inv` and reports which referenced parcels still need their
/// content uploaded.
///
/// Invoice-store errors propagate unchanged.  On success the response
/// carries the created invoice and, when at least one referenced parcel
/// has no stored content yet, exactly the labels of those parcels —
/// `None` means the release is already complete.  Once creation has
/// succeeded nothing rolls it back: the missing set is advisory and can
/// always be recomputed later with [`compute_missing`].
pub fn create_invoice(
    invoices: &mut InvoiceStore,
    parcels: &ParcelStore,
    inv: Invoice,
) -> (r: Result<InvoiceCreateResponse, RegistryError>)
    requires
        old(invoices).wf(),
        parcels.wf(),
    ensures
        final(invoices).wf(),
        final(invoices)@ == create_effect(old(invoices)@, inv@),
        match r {
            Ok(resp) => {
                &&& create_ok(old(invoices)@, inv@)
                &&& resp.invoice@ == inv@
                &&& match resp.missing {
                    Some(miss) => labels_view(miss@) == missing_from(inv@.parcels, parcels@)
                        && miss@.len() > 0,
                    None => missing_from(inv@.parcels, parcels@).len() == 0,
                }
            },
            Err(RegistryError::Validation(v)) => !invoice_wf(inv@) && validation_verdict(inv@, v),
            Err(RegistryError::Conflict) => invoice_wf(inv@)
                && catalog_map(old(invoices)@).contains_key(invoice_key(inv@)),
            Err(_) => false,
        },
{
    let returned = inv.duplicate();
    if let Err(e) = invoices.create(inv) {
        return Err(e);
    }
    let missing = compute_missing(&returned, parcels);
    if missing.is_empty() {
        Ok(InvoiceCreateResponse { invoice: returned, missing: None })
    } else {
        proof {
            assert(labels_view(missing@).len() == missing@.len());
        }
        Ok(InvoiceCreateResponse { invoice: returned, missing: Some(missing) })
    }
}

} // verus!
