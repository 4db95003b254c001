//! The content-addressable parcel store.
//!
//! Parcels are stored at most once per content digest.  An upload is
//! accepted only when the digest computed over the uploaded bytes and
//! the byte count both agree with the declared label — a caller-supplied
//! digest is never trusted — and an upload of content that is already
//! stored is a successful no-op, so concurrent duplicate uploads all
//! succeed without double storage.  Rejected uploads leave the store
//! untouched: no partial write ever becomes readable.
//!
//! The store's model is the map from content digest to stored parcel.

use vstd::prelude::*;

use crate::digest::{sha256_hex, sha256_hex_of};
use crate::error::{IntegrityViolation, RegistryError};
use crate::invoice::{Label, LabelV};
use crate::keyed::{distinct_keys, has_key, keyed_map, lemma_distinct_push, lemma_keyed_map_facts,
    lemma_keyed_map_push};

verus! {

/// One stored parcel: its (verified) label and its content bytes.
#[derive(Debug)]
pub struct StoredParcel {
    pub label: Label,
    pub content: Vec<u8>,
}

/// Mathematical view of a [`StoredParcel`].
#[verifier::ext_equal]
pub ghost struct StoredParcelV {
    pub label: LabelV,
    pub content: Seq<u8>,
}

impl View for StoredParcel {
    type V = StoredParcelV;

    open spec fn view(&self) -> StoredParcelV {
        StoredParcelV { label: self.label@, content: self.content@ }
    }
}

/// The key under which a stored parcel lives: its declared digest.
pub open spec fn parcel_key(p: StoredParcelV) -> Seq<char> {
    p.label.sha256
}

/// An upload is accepted exactly when the declared digest is the digest
/// of the uploaded bytes and the declared size is their count.
pub open spec fn put_accepts(label: LabelV, content: Seq<u8>) -> bool {
    label.sha256 == sha256_hex_of(content) && label.size as nat == content.len()
}

/// What an accepted upload does to the store's map: first write wins,
/// a repeated upload of stored content changes nothing.
pub open spec fn put_map(
    m: Map<Seq<char>, StoredParcelV>,
    label: LabelV,
    content: Seq<u8>,
) -> Map<Seq<char>, StoredParcelV> {
    if m.contains_key(label.sha256) {
        m
    } else {
        m.insert(label.sha256, StoredParcelV { label, content })
    }
}

/// What any upload, accepted or rejected, does to the store's map.
pub open spec fn put_effect(
    m: Map<Seq<char>, StoredParcelV>,
    label: LabelV,
    content: Seq<u8>,
) -> Map<Seq<char>, StoredParcelV> {
    if put_accepts(label, content) {
        put_map(m, label, content)
    } else {
        m
    }
}

/// Content-addressable, digest-verifying, deduplicating parcel storage.
#[derive(Debug)]
pub struct ParcelStore {
    entries: Vec<StoredParcel>,
}

impl View for ParcelStore {
    type V = Map<Seq<char>, StoredParcelV>;

    closed spec fn view(&self) -> Map<Seq<char>, StoredParcelV> {
        keyed_map(self.entries@.map_values(|p: StoredParcel| p@), |p: StoredParcelV| parcel_key(p))
    }
}

impl ParcelStore {
    /// The views of the stored records, in storage order.
    closed spec fn records(&self) -> Seq<StoredParcelV> {
        self.entries@.map_values(|p: StoredParcel| p@)
    }

    /// Internal invariant: one record per digest, and every record's
    /// content verifies against its own label.
    pub closed spec fn wf(&self) -> bool {
        &&& distinct_keys(self.records(), |p: StoredParcelV| parcel_key(p))
        &&& forall|i: int| 0 <= i < self.records().len()
            ==> put_accepts((#[trigger] self.records()[i]).label, self.records()[i].content)
    }

    /// A new, empty store.
    pub fn new() -> (s: ParcelStore)
        ensures
            s.wf(),
            s@ == Map::<Seq<char>, StoredParcelV>::empty(),
    {
        ParcelStore { entries: Vec::new() }
    }

    /// Index of the record stored under `sha`, if any.
    fn find(&self, sha: &String) -> (r: Option<usize>)
        ensures
            match r {
                Some(i) => i < self.records().len() && self.records()[i as int].label.sha256 == sha@,
                None => !has_key(self.records(), |p: StoredParcelV| parcel_key(p), sha@),
            },
    {
        let mut i: usize = 0;
        while i < self.entries.len()
            invariant
                0 <= i <= self.entries@.len(),
                forall|t: int| 0 <= t < i
                    ==> (#[trigger] self.records()[t]).label.sha256 != sha@,
            decreases self.entries@.len() - i,
        {
            if self.entries[i].label.sha256 == *sha {
                return Some(i);
            }
            i = i + 1;
        }
        proof {
            if has_key(self.records(), |p: StoredParcelV| parcel_key(p), sha@) {
                let t = choose|t: int| 0 <= t < self.records().len()
                    && parcel_key(#[trigger] self.records()[t]) == sha@;
                assert(self.records()[t].label.sha256 == sha@);
            }
        }
        None
    }

    /// Nonfailing existence check: is content stored under `sha`?
    pub fn contains(&self, sha: &String) -> (b: bool)
        requires
            self.wf(),
        ensures
            b == self@.contains_key(sha@),
    {
        proof {
            lemma_keyed_map_facts(self.records(), |p: StoredParcelV| parcel_key(p));
        }
        match self.find(sha) {
            Some(i) => {
                proof {
                    assert(parcel_key(self.records()[i as int]) == sha@);
                }
                true
            },
            None => false,
        }
    }

    /// Fetches the parcel stored under `sha`.
    pub fn get(&self, sha: &String) -> (r: Result<&StoredParcel, RegistryError>)
        requires
            self.wf(),
        ensures
            match r {
                Ok(p) => self@.contains_key(sha@) && p@ == self@[sha@],
                Err(RegistryError::NotFound) => !self@.contains_key(sha@),
                Err(_) => false,
            },
    {
        proof {
            lemma_keyed_map_facts(self.records(), |p: StoredParcelV| parcel_key(p));
        }
        match self.find(sha) {
            Some(i) => {
                proof {
                    assert(parcel_key(self.records()[i as int]) == sha@);
                }
                Ok(&self.entries[i])
            },
            None => Err(RegistryError::NotFound),
        }
    }

    /// Stores `content` under the digest declared by `label`, after
    /// verifying it.
    ///
    /// The digest of the uploaded bytes is recomputed here and compared
    /// with the declared one, then the byte count with the declared
    /// size; a mismatch is reported as an integrity error that names
    /// both the declared and the computed quantity, and leaves the
    /// store untouched.  If content already exists under the digest,
    /// the accepted upload is a no-op success.
    pub fn put(&mut self, label: &Label, content: Vec<u8>) -> (r: Result<(), RegistryError>)
        requires
            old(self).wf(),
        ensures
            final(self).wf(),
            final(self)@ == put_effect(old(self)@, label@, content@),
            match r {
                Ok(()) => put_accepts(label@, content@),
                Err(RegistryError::Integrity(IntegrityViolation::DigestMismatch {
                    declared,
                    computed,
                })) => {
                    &&& label@.sha256 != sha256_hex_of(content@)
                    &&& declared@ == label@.sha256
                    &&& computed@ == sha256_hex_of(content@)
                },
                Err(RegistryError::Integrity(IntegrityViolation::SizeMismatch {
                    declared_size,
                    actual_size,
                })) => {
                    &&& label@.sha256 == sha256_hex_of(content@)
                    &&& label@.size as nat != content@.len()
                    &&& declared_size == label@.size
                    &&& actual_size as nat == content@.len()
                },
                Err(_) => false,
            },
    {
        let computed = sha256_hex(content.as_slice());
        if label.sha256 != computed {
            return Err(RegistryError::Integrity(IntegrityViolation::DigestMismatch {
                declared: label.sha256.clone(),
                computed,
            }));
        }
        if content.len() as u64 != label.size {
            return Err(RegistryError::Integrity(IntegrityViolation::SizeMismatch {
                declared_size: label.size,
                actual_size: content.len() as u64,
            }));
        }
        proof {
            lemma_keyed_map_facts(self.records(), |p: StoredParcelV| parcel_key(p));
        }
        match self.find(&label.sha256) {
            Some(i) => {
                proof {
                    assert(parcel_key(self.records()[i as int]) == label@.sha256);
                }
                Ok(())
            },
            None => {
                let record = StoredParcel { label: label.duplicate(), content };
                proof {
                    let ghost recs = self.records();
                    let ghost k = |p: StoredParcelV| parcel_key(p);
                    lemma_distinct_push(recs, k, record@);
                    lemma_keyed_map_push(recs, k, record@);
                    assert(recs.push(record@)
                        =~= self.entries@.push(record).map_values(|p: StoredParcel| p@));
                }
                self.entries.push(record);
                Ok(())
            },
        }
    }

    /// Everything the store holds is verified: the record under any
    /// digest carries that digest as its own content address, and its
    /// content and size agree with its label.
    pub proof fn lemma_store_integrity(&self, k: Seq<char>)
        requires
            self.wf(),
            self@.contains_key(k),
        ensures
            self@[k].label.sha256 == k,
            put_accepts(self@[k].label, self@[k].content),
    {
        let key = |p: StoredParcelV| parcel_key(p);
        lemma_keyed_map_facts(self.records(), key);
        let i = choose|i: int| 0 <= i < self.records().len()
            && key(#[trigger] self.records()[i]) == k;
        assert(self@[k] == self.records()[i]);
    }
}

/// Idempotent dedup: an upload whose content verifies always succeeds,
/// stores exactly one object under its digest, and repeating it — as
/// racing duplicate uploads do in some linearized order — changes
/// nothing further.
pub proof fn lemma_idempotent_dedup(
    m: Map<Seq<char>, StoredParcelV>,
    label: LabelV,
    content: Seq<u8>,
)
    requires
        put_accepts(label, content),
    ensures
        put_effect(m, label, content).contains_key(label.sha256),
        put_effect(put_effect(m, label, content), label, content) == put_effect(m, label, content),
{
}

/// Integrity enforcement: an upload whose content does not verify
/// leaves the store exactly as it was; in particular no content becomes
/// readable under the declared digest nor under the digest of the
/// rejected bytes.
pub proof fn lemma_integrity_enforcement(
    m: Map<Seq<char>, StoredParcelV>,
    label: LabelV,
    content: Seq<u8>,
)
    requires
        !put_accepts(label, content),
    ensures
        put_effect(m, label, content) == m,
        !m.contains_key(label.sha256)
            ==> !put_effect(m, label, content).contains_key(label.sha256),
        !m.contains_key(sha256_hex_of(content))
            ==> !put_effect(m, label, content).contains_key(sha256_hex_of(content)),
{
}

} // verus!
