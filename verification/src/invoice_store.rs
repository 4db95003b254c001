//! The invoice store.
//!
//! Invoice documents are keyed by `(name, version)` and immutable once
//! written: creation under an existing key — even a yanked one — is
//! always rejected, never an overwrite, and the one permitted mutation
//! afterwards is the irreversible transition to the yanked state.
//! Readers always receive the document regardless of yank state; yank
//! filtering is a policy of the query layer, not of the store.
//!
//! The store's model is the catalog: the sequence of stored invoice
//! views in creation order (the order the query layer pages over), with
//! the `(name, version) → invoice` map read off it.

use vstd::prelude::*;

use crate::error::{RegistryError, ValidationIssue};
use crate::invoice::{invoice_key, invoice_wf, validation_verdict, Invoice, InvoiceV};
use crate::keyed::{distinct_keys, has_key, keyed_map, lemma_distinct_push, lemma_keyed_map_facts,
    lemma_keyed_map_push, lemma_keyed_map_update};

verus! {

/// A catalog is well formed when no two invoices share a key and every
/// stored invoice is well formed.
pub open spec fn catalog_wf(s: Seq<InvoiceV>) -> bool {
    &&& distinct_keys(s, |inv: InvoiceV| invoice_key(inv))
    &&& forall|i: int| 0 <= i < s.len() ==> invoice_wf(#[trigger] s[i])
}

/// The `(name, version) → invoice` map of a catalog.
pub open spec fn catalog_map(s: Seq<InvoiceV>) -> Map<(Seq<char>, Seq<char>), InvoiceV> {
    keyed_map(s, |inv: InvoiceV| invoice_key(inv))
}

/// Creation succeeds exactly for a well-formed invoice under a fresh key.
pub open spec fn create_ok(s: Seq<InvoiceV>, inv: InvoiceV) -> bool {
    invoice_wf(inv) && !catalog_map(s).contains_key(invoice_key(inv))
}

/// What creation does to the catalog: append on success, nothing
/// otherwise.
pub open spec fn create_effect(s: Seq<InvoiceV>, inv: InvoiceV) -> Seq<InvoiceV> {
    if create_ok(s, inv) {
        s.push(inv)
    } else {
        s
    }
}

/// `inv` with its yanked flag raised.
pub open spec fn yanked_of(inv: InvoiceV) -> InvoiceV {
    InvoiceV { yanked: true, ..inv }
}

/// What yanking key `k` does to the catalog: the invoice under `k`, if
/// any, has its flag raised in place; everything else is untouched.
pub open spec fn yank_effect(s: Seq<InvoiceV>, k: (Seq<char>, Seq<char>)) -> Seq<InvoiceV> {
    s.map_values(|e: InvoiceV| if invoice_key(e) == k { yanked_of(e) } else { e })
}

/// Immutable-once-written invoice documents keyed by `(name, version)`.
#[derive(Debug)]
pub struct InvoiceStore {
    entries: Vec<Invoice>,
}

impl View for InvoiceStore {
    type V = Seq<InvoiceV>;

    closed spec fn view(&self) -> Seq<InvoiceV> {
        self.entries@.map_values(|i: Invoice| i@)
    }
}

impl InvoiceStore {
    /// Internal invariant, stated over the catalog.
    pub open spec fn wf(&self) -> bool {
        catalog_wf(self@)
    }

    /// A new, empty store.
    pub fn new() -> (s: InvoiceStore)
        ensures
            s.wf(),
            s@ == Seq::<InvoiceV>::empty(),
    {
        InvoiceStore { entries: Vec::new() }
    }

    /// Index of the invoice stored under `(name, version)`, if any.
    fn find(&self, name: &String, version: &String) -> (r: Option<usize>)
        ensures
            match r {
                Some(i) => i < self@.len() && invoice_key(self@[i as int]) == (name@, version@),
                None => !has_key(self@, |inv: InvoiceV| invoice_key(inv), (name@, version@)),
            },
    {
        let mut i: usize = 0;
        while i < self.entries.len()
            invariant
                0 <= i <= self.entries@.len(),
                forall|t: int| 0 <= t < i
                    ==> invoice_key(#[trigger] self@[t]) != (name@, version@),
            decreases self.entries@.len() - i,
        {
            if self.entries[i].name == *name && self.entries[i].version == *version {
                return Some(i);
            }
            i = i + 1;
        }
        proof {
            if has_key(self@, |inv: InvoiceV| invoice_key(inv), (name@, version@)) {
                let t = choose|t: int| 0 <= t < self@.len()
                    && invoice_key(#[trigger] self@[t]) == (name@, version@);
                assert(invoice_key(self@[t]) == (name@, version@));
            }
        }
        None
    }

    /// Creates `inv` under its `(name, version)` key.
    ///
    /// The invoice shape is validated first; then the key must be
    /// fresh: creation under an existing key — including a yanked one —
    /// fails with a conflict and never overwrites.  The check and the
    /// write happen in one atomic step with respect to the store, so of
    /// two racing creations under one key exactly one succeeds.
    pub fn create(&mut self, inv: Invoice) -> (r: Result<(), RegistryError>)
        requires
            old(self).wf(),
        ensures
            final(self).wf(),
            final(self)@ == create_effect(old(self)@, inv@),
            match r {
                Ok(()) => create_ok(old(self)@, inv@),
                Err(RegistryError::Validation(v)) =>
                    !invoice_wf(inv@) && validation_verdict(inv@, v),
                Err(RegistryError::Conflict) =>
                    invoice_wf(inv@)
                    && catalog_map(old(self)@).contains_key(invoice_key(inv@)),
                Err(_) => false,
            },
    {
        if let Err(e) = inv.validate() {
            return Err(e);
        }
        proof {
            lemma_keyed_map_facts(self@, |i: InvoiceV| invoice_key(i));
        }
        match self.find(&inv.name, &inv.version) {
            Some(_) => Err(RegistryError::Conflict),
            None => {
                proof {
                    let ghost key = |i: InvoiceV| invoice_key(i);
                    lemma_distinct_push(self@, key, inv@);
                    assert(self@.push(inv@)
                        =~= self.entries@.push(inv).map_values(|i: Invoice| i@));
                }
                self.entries.push(inv);
                Ok(())
            },
        }
    }

    /// Fetches the invoice stored under `(name, version)`, yanked or
    /// not: the store itself is yank-agnostic.
    pub fn get(&self, name: &String, version: &String) -> (r: Result<&Invoice, RegistryError>)
        requires
            self.wf(),
        ensures
            match r {
                Ok(inv) => catalog_map(self@).contains_key((name@, version@))
                    && inv@ == catalog_map(self@)[(name@, version@)],
                Err(RegistryError::NotFound) =>
                    !catalog_map(self@).contains_key((name@, version@)),
                Err(_) => false,
            },
    {
        proof {
            lemma_keyed_map_facts(self@, |i: InvoiceV| invoice_key(i));
        }
        match self.find(name, version) {
            Some(i) => {
                proof {
                    assert(invoice_key(self@[i as int]) == (name@, version@));
                }
                Ok(&self.entries[i])
            },
            None => Err(RegistryError::NotFound),
        }
    }

    /// Number of stored invoices.
    pub fn len(&self) -> (n: usize)
        ensures
            n == self@.len(),
    {
        self.entries.len()
    }

    /// The invoice at position `i` of the catalog (creation order).
    pub fn at(&self, i: usize) -> (inv: &Invoice)
        requires
            i < self@.len(),
        ensures
            inv@ == self@[i as int],
    {
        &self.entries[i]
    }

    /// Irreversibly yanks the invoice under `(name, version)`.
    ///
    /// Succeeds exactly when the key exists; yanking an already yanked
    /// invoice is a successful no-op.  There is no inverse operation.
    pub fn yank(&mut self, name: &String, version: &String) -> (r: Result<(), RegistryError>)
        requires
            old(self).wf(),
        ensures
            final(self).wf(),
            final(self)@ == yank_effect(old(self)@, (name@, version@)),
            match r {
                Ok(()) => catalog_map(old(self)@).contains_key((name@, version@)),
                Err(RegistryError::NotFound) =>
                    !catalog_map(old(self)@).contains_key((name@, version@)),
                Err(_) => false,
            },
    {
        proof {
            lemma_keyed_map_facts(self@, |i: InvoiceV| invoice_key(i));
        }
        match self.find(name, version) {
            Some(i) => {
                let ghost before = self@;
                self.entries[i].yanked = true;
                proof {
                    assert(self@ =~= before.update(i as int, yanked_of(before[i as int])));
                    assert(self@ =~= yank_effect(before, (name@, version@))) by {
                        assert forall|t: int| 0 <= t < before.len() implies
                            self@[t] == yank_effect(before, (name@, version@))[t] by {
                            if t != i {
                                assert(invoice_key(before[t]) != invoice_key(before[i as int]));
                            }
                        }
                    }
                    assert(catalog_wf(self@)) by {
                        lemma_keyed_map_update(
                            before,
                            |e: InvoiceV| invoice_key(e),
                            i as int,
                            yanked_of(before[i as int]),
                        );
                        assert(forall|t: int| 0 <= t < self@.len()
                            ==> invoice_wf(#[trigger] self@[t]));
                    }
                }
                Ok(())
            },
            None => {
                proof {
                    assert(yank_effect(self@, (name@, version@)) =~= self@) by {
                        assert(forall|t: int| 0 <= t < self@.len()
                            ==> invoice_key(#[trigger] self@[t]) != (name@, version@));
                    }
                }
                Err(RegistryError::NotFound)
            },
        }
    }
}

/// Yanking preserves exactly the set of stored keys.
pub proof fn lemma_yank_preserves_keys(s: Seq<InvoiceV>, k: (Seq<char>, Seq<char>))
    requires
        catalog_wf(s),
    ensures
        catalog_wf(yank_effect(s, k)),
        forall|k2: (Seq<char>, Seq<char>)|
            #![trigger catalog_map(yank_effect(s, k)).contains_key(k2)]
            catalog_map(yank_effect(s, k)).contains_key(k2)
                == catalog_map(s).contains_key(k2),
{
    let key = |e: InvoiceV| invoice_key(e);
    let t = yank_effect(s, k);
    assert(forall|i: int| 0 <= i < s.len() ==> key(#[trigger] t[i]) == key(s[i]));
    assert(catalog_wf(t));
    lemma_keyed_map_facts(s, key);
    lemma_keyed_map_facts(t, key);
    assert forall|k2: (Seq<char>, Seq<char>)|
        #![trigger catalog_map(t).contains_key(k2)]
        catalog_map(t).contains_key(k2) == catalog_map(s).contains_key(k2) by {
        if has_key(s, key, k2) {
            let i = choose|i: int| 0 <= i < s.len() && key(#[trigger] s[i]) == k2;
            assert(key(t[i]) == k2);
            assert(has_key(t, key, k2));
        }
        if has_key(t, key, k2) {
            let i = choose|i: int| 0 <= i < t.len() && key(#[trigger] t[i]) == k2;
            assert(key(s[i]) == k2);
            assert(has_key(s, key, k2));
        }
    }
}

/// Immutability: once an invoice is created under a key, a second
/// creation under that key — whatever its content — is rejected, and
/// both the catalog and the stored document are unchanged by the
/// attempt.
pub proof fn lemma_create_is_immutable(s: Seq<InvoiceV>, first: InvoiceV, second: InvoiceV)
    requires
        catalog_wf(s),
        create_ok(s, first),
        invoice_key(second) == invoice_key(first),
    ensures
        !create_ok(create_effect(s, first), second),
        create_effect(create_effect(s, first), second) == create_effect(s, first),
        catalog_map(create_effect(s, first))[invoice_key(first)] == first,
        catalog_wf(create_effect(s, first)),
{
    let key = |e: InvoiceV| invoice_key(e);
    let s1 = create_effect(s, first);
    lemma_keyed_map_facts(s, key);
    lemma_distinct_push(s, key, first);
    lemma_keyed_map_push(s, key, first);
    assert(catalog_map(s1).contains_key(invoice_key(first)));
    assert(forall|i: int| 0 <= i < s1.len() ==> invoice_wf(#[trigger] s1[i]));
}

/// Yank is terminal and idempotent: yanking twice equals yanking once,
/// the key remains present — so reads still resolve — and an invoice can
/// never be re-created under a yanked key.
pub proof fn lemma_yank_terminal_idempotent(
    s: Seq<InvoiceV>,
    k: (Seq<char>, Seq<char>),
    inv: InvoiceV,
)
    requires
        catalog_wf(s),
        invoice_key(inv) == k,
        catalog_map(s).contains_key(k),
    ensures
        yank_effect(yank_effect(s, k), k) == yank_effect(s, k),
        catalog_map(yank_effect(s, k)).contains_key(k),
        !create_ok(yank_effect(s, k), inv),
{
    assert(yank_effect(yank_effect(s, k), k) =~= yank_effect(s, k));
    lemma_yank_preserves_keys(s, k);
}

} // verus!
