//! The invoice/label/parcel data model.
//!
//! A *label* describes one parcel's content: its content address (a
//! lowercase hexadecimal SHA-256 digest), media type, display name, exact
//! byte size and optional feature annotations.  A *parcel* pairs a label
//! with optional group/condition metadata.  An *invoice* is the manifest
//! of one release: a registry-unique name, a semantic version, optional
//! description, and the ordered list of parcels the release needs.
//!
//! Every type has a mathematical view, and invoice validation is
//! specified exactly: an invoice is well formed when its name is
//! nonempty, its version parses as a semantic version, and every
//! referenced label is complete.

use vstd::prelude::*;

use crate::error::{RegistryError, ValidationIssue};
use crate::version::{is_digit, parses_as_semver, version_is_well_formed};

verus! {

/// One feature annotation on a label: a key/value tag used for
/// conditional inclusion of the parcel.
#[derive(Debug)]
pub struct Feature {
    pub key: String,
    pub value: String,
}

/// Mathematical view of a [`Feature`].
#[verifier::ext_equal]
pub ghost struct FeatureV {
    pub key: Seq<char>,
    pub value: Seq<char>,
}

impl View for Feature {
    type V = FeatureV;

    open spec fn view(&self) -> FeatureV {
        FeatureV { key: self.key@, value: self.value@ }
    }
}

/// Metadata describing one parcel's content.
#[derive(Debug)]
pub struct Label {
    /// Lowercase hexadecimal SHA-256 digest of the content: the content
    /// address.
    pub sha256: String,
    /// Media type of the content, e.g. a MIME type.
    pub media_type: String,
    /// Display name of the parcel.
    pub name: String,
    /// Exact byte length of the content.
    pub size: u64,
    /// Optional feature annotations.
    pub feature: Option<Vec<Feature>>,
}

/// Mathematical view of a [`Label`].
#[verifier::ext_equal]
pub ghost struct LabelV {
    pub sha256: Seq<char>,
    pub media_type: Seq<char>,
    pub name: Seq<char>,
    pub size: u64,
    pub feature: Option<Seq<FeatureV>>,
}

/// The views of a sequence of features.
pub open spec fn features_view(s: Seq<Feature>) -> Seq<FeatureV> {
    s.map_values(|f: Feature| f@)
}

impl View for Label {
    type V = LabelV;

    open spec fn view(&self) -> LabelV {
        LabelV {
            sha256: self.sha256@,
            media_type: self.media_type@,
            name: self.name@,
            size: self.size,
            feature: match self.feature {
                Some(fs) => Some(features_view(fs@)),
                None => None,
            },
        }
    }
}

/// Group/condition metadata attached to a parcel reference.
#[derive(Debug)]
pub struct Condition {
    /// Groups this parcel is a member of.
    pub member_of: Option<Vec<String>>,
    /// Groups this parcel requires to be activated.
    pub requires_groups: Option<Vec<String>>,
}

/// Mathematical view of a [`Condition`].
#[verifier::ext_equal]
pub ghost struct ConditionV {
    pub member_of: Option<Seq<Seq<char>>>,
    pub requires_groups: Option<Seq<Seq<char>>>,
}

/// The views of a sequence of strings.
pub open spec fn strings_view(s: Seq<String>) -> Seq<Seq<char>> {
    s.map_values(|x: String| x@)
}

/// The view of an optional vector of strings.
pub open spec fn opt_strings_view(o: Option<Vec<String>>) -> Option<Seq<Seq<char>>> {
    match o {
        Some(v) => Some(strings_view(v@)),
        None => None,
    }
}

impl View for Condition {
    type V = ConditionV;

    open spec fn view(&self) -> ConditionV {
        ConditionV {
            member_of: opt_strings_view(self.member_of),
            requires_groups: opt_strings_view(self.requires_groups),
        }
    }
}

/// One parcel reference inside an invoice: a label plus optional
/// group/condition metadata.
#[derive(Debug)]
pub struct Parcel {
    pub label: Label,
    pub conditions: Option<Condition>,
}

/// Mathematical view of a [`Parcel`].
#[verifier::ext_equal]
pub ghost struct ParcelV {
    pub label: LabelV,
    pub conditions: Option<ConditionV>,
}

impl View for Parcel {
    type V = ParcelV;

    open spec fn view(&self) -> ParcelV {
        ParcelV {
            label: self.label@,
            conditions: match self.conditions {
                Some(c) => Some(c@),
                None => None,
            },
        }
    }
}

/// The views of a sequence of parcels.
pub open spec fn parcels_view(s: Seq<Parcel>) -> Seq<ParcelV> {
    s.map_values(|p: Parcel| p@)
}

/// A versioned manifest: the document describing one bindle.
#[derive(Debug)]
pub struct Invoice {
    /// Version of the bindle document format itself.
    pub bindle_version: String,
    /// Registry-unique name of the bindle.
    pub name: String,
    /// Semantic version of this release.
    pub version: String,
    /// Optional free-text description.
    pub description: Option<String>,
    /// Ordered list of parcel references.
    pub parcels: Vec<Parcel>,
    /// Whether the invoice has been yanked.  Defaults to `false`; the
    /// only mutation the store ever applies is setting it to `true`.
    pub yanked: bool,
}

/// Mathematical view of an [`Invoice`].
#[verifier::ext_equal]
pub ghost struct InvoiceV {
    pub bindle_version: Seq<char>,
    pub name: Seq<char>,
    pub version: Seq<char>,
    pub description: Option<Seq<char>>,
    pub parcels: Seq<ParcelV>,
    pub yanked: bool,
}

impl View for Invoice {
    type V = InvoiceV;

    open spec fn view(&self) -> InvoiceV {
        InvoiceV {
            bindle_version: self.bindle_version@,
            name: self.name@,
            version: self.version@,
            description: match self.description {
                Some(d) => Some(d@),
                None => None,
            },
            parcels: parcels_view(self.parcels@),
            yanked: self.yanked,
        }
    }
}

/// The views of a sequence of invoices.
pub open spec fn invoices_view(s: Seq<Invoice>) -> Seq<InvoiceV> {
    s.map_values(|i: Invoice| i@)
}

/// Taking views commutes with appending an invoice.
pub proof fn lemma_invoices_view_push(s: Seq<Invoice>, x: Invoice)
    ensures
        invoices_view(s.push(x)) == invoices_view(s).push(x@),
{
    assert(invoices_view(s.push(x)) =~= invoices_view(s).push(x@));
}

/// The identity key of an invoice: its `(name, version)` pair.
pub open spec fn invoice_key(inv: InvoiceV) -> (Seq<char>, Seq<char>) {
    (inv.name, inv.version)
}

/// `c` is a lowercase hexadecimal digit.
pub open spec fn is_lower_hex_digit(c: char) -> bool {
    is_digit(c) || ('a' as int <= c as int && c as int <= 'f' as int)
}

/// `s` has the shape of a lowercase hexadecimal SHA-256 digest:
/// exactly 64 lowercase hex digits.
pub open spec fn is_sha256_hex(s: Seq<char>) -> bool {
    s.len() == 64 && forall|i: int| 0 <= i < s.len() ==> is_lower_hex_digit(#[trigger] s[i])
}

/// A label is complete when its content address has digest shape and its
/// media type and display name are nonempty.
pub open spec fn label_wf(l: LabelV) -> bool {
    is_sha256_hex(l.sha256) && l.media_type.len() > 0 && l.name.len() > 0
}

/// An invoice is well formed when its name is nonempty, its version is a
/// semantic version, and every referenced label is complete.
pub open spec fn invoice_wf(inv: InvoiceV) -> bool {
    &&& inv.name.len() > 0
    &&& parses_as_semver(inv.version)
    &&& forall|i: int| 0 <= i < inv.parcels.len() ==> label_wf(#[trigger] inv.parcels[i].label)
}

/// The exact condition under which validation reports `v` for `inv`:
/// the name is checked first, then the version, then the labels.
pub open spec fn validation_verdict(inv: InvoiceV, v: ValidationIssue) -> bool {
    match v {
        ValidationIssue::EmptyName => inv.name.len() == 0,
        ValidationIssue::MalformedVersion => inv.name.len() > 0 && !parses_as_semver(inv.version),
        ValidationIssue::MalformedLabel =>
            inv.name.len() > 0 && parses_as_semver(inv.version)
            && exists|i: int| 0 <= i < inv.parcels.len()
                && !label_wf(#[trigger] inv.parcels[i].label),
    }
}

impl Label {
    /// Whether this label is complete in the sense of [`label_wf`].
    pub fn is_well_formed(&self) -> (b: bool)
        ensures
            b == label_wf(self@),
    {
        let sha_len = self.sha256.as_str().unicode_len();
        if sha_len != 64 {
            return false;
        }
        let mut i: usize = 0;
        while i < 64
            invariant
                0 <= i <= 64,
                self.sha256@.len() == 64,
                forall|t: int| 0 <= t < i ==> is_lower_hex_digit(#[trigger] self.sha256@[t]),
            decreases 64 - i,
        {
            let c = self.sha256.as_str().get_char(i);
            let cv = c as u32;
            let digit = cv >= '0' as u32 && cv <= '9' as u32;
            let lower_hex = cv >= 'a' as u32 && cv <= 'f' as u32;
            if !digit && !lower_hex {
                return false;
            }
            i = i + 1;
        }
        if self.media_type.as_str().is_empty() {
            return false;
        }
        if self.name.as_str().is_empty() {
            return false;
        }
        true
    }

    /// A deep copy, equal to `self` in view.
    pub fn duplicate(&self) -> (r: Label)
        ensures
            r@ == self@,
    {
        let feature = match &self.feature {
            Some(fs) => {
                let mut out: Vec<Feature> = Vec::new();
                let mut i: usize = 0;
                while i < fs.len()
                    invariant
                        0 <= i <= fs@.len(),
                        out@.len() == i,
                        forall|t: int| 0 <= t < i ==> (#[trigger] out@[t])@ == fs@[t]@,
                    decreases fs@.len() - i,
                {
                    out.push(Feature { key: fs[i].key.clone(), value: fs[i].value.clone() });
                    i = i + 1;
                }
                proof {
                    assert(features_view(out@) =~= features_view(fs@));
                }
                Some(out)
            },
            None => None,
        };
        let r = Label {
            sha256: self.sha256.clone(),
            media_type: self.media_type.clone(),
            name: self.name.clone(),
            size: self.size,
            feature,
        };
        proof {
            assert(r@ =~= self@);
        }
        r
    }
}

/// A deep copy of a string vector, equal in view.
fn duplicate_strings(v: &Vec<String>) -> (r: Vec<String>)
    ensures
        strings_view(r@) == strings_view(v@),
{
    let mut out: Vec<String> = Vec::new();
    let mut i: usize = 0;
    while i < v.len()
        invariant
            0 <= i <= v@.len(),
            out@.len() == i,
            forall|t: int| 0 <= t < i ==> (#[trigger] out@[t])@ == v@[t]@,
        decreases v@.len() - i,
    {
        out.push(v[i].clone());
        i = i + 1;
    }
    proof {
        assert(strings_view(out@) =~= strings_view(v@));
    }
    out
}

impl Condition {
    /// A deep copy, equal to `self` in view.
    pub fn duplicate(&self) -> (r: Condition)
        ensures
            r@ == self@,
    {
        let member_of = match &self.member_of {
            Some(v) => Some(duplicate_strings(v)),
            None => None,
        };
        let requires_groups = match &self.requires_groups {
            Some(v) => Some(duplicate_strings(v)),
            None => None,
        };
        let r = Condition { member_of, requires_groups };
        proof {
            assert(r@ =~= self@);
        }
        r
    }
}

impl Parcel {
    /// A deep copy, equal to `self` in view.
    pub fn duplicate(&self) -> (r: Parcel)
        ensures
            r@ == self@,
    {
        let conditions = match &self.conditions {
            Some(c) => Some(c.duplicate()),
            None => None,
        };
        let r = Parcel { label: self.label.duplicate(), conditions };
        proof {
            assert(r@ =~= self@);
        }
        r
    }
}

impl Invoice {
    /// A deep copy, equal to `self` in view.
    pub fn duplicate(&self) -> (r: Invoice)
        ensures
            r@ == self@,
    {
        let mut parcels: Vec<Parcel> = Vec::new();
        let mut i: usize = 0;
        while i < self.parcels.len()
            invariant
                0 <= i <= self.parcels@.len(),
                parcels@.len() == i,
                forall|t: int| 0 <= t < i ==> (#[trigger] parcels@[t])@ == self.parcels@[t]@,
            decreases self.parcels@.len() - i,
        {
            parcels.push(self.parcels[i].duplicate());
            i = i + 1;
        }
        proof {
            assert(parcels_view(parcels@) =~= parcels_view(self.parcels@));
        }
        let description = match &self.description {
            Some(d) => Some(d.clone()),
            None => None,
        };
        let r = Invoice {
            bindle_version: self.bindle_version.clone(),
            name: self.name.clone(),
            version: self.version.clone(),
            description,
            parcels,
            yanked: self.yanked,
        };
        proof {
            assert(r@ =~= self@);
        }
        r
    }

    /// Validates the shape of this invoice.
    ///
    /// Succeeds exactly on well-formed invoices, and otherwise reports
    /// the first shape rule broken, checking the name, then the version,
    /// then each label in order.
    pub fn validate(&self) -> (r: Result<(), RegistryError>)
        ensures
            match r {
                Ok(()) => invoice_wf(self@),
                Err(RegistryError::Validation(v)) =>
                    !invoice_wf(self@) && validation_verdict(self@, v),
                Err(_) => false,
            },
    {
        if self.name.as_str().is_empty() {
            return Err(RegistryError::Validation(ValidationIssue::EmptyName));
        }
        if !version_is_well_formed(&self.version) {
            return Err(RegistryError::Validation(ValidationIssue::MalformedVersion));
        }
        let mut i: usize = 0;
        while i < self.parcels.len()
            invariant
                0 <= i <= self.parcels@.len(),
                self@.name.len() > 0,
                parses_as_semver(self@.version),
                forall|t: int| 0 <= t < i ==> label_wf(#[trigger] parcels_view(self.parcels@)[t].label),
            decreases self.parcels@.len() - i,
        {
            if !self.parcels[i].label.is_well_formed() {
                assert(!label_wf(self@.parcels[i as int].label));
                return Err(RegistryError::Validation(ValidationIssue::MalformedLabel));
            }
            i = i + 1;
        }
        Ok(())
    }
}

} // verus!
