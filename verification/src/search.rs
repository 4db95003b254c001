//! The query layer over stored invoices.
//!
//! A query selects invoices by an optional free-text term (matched
//! against name and description, or exactly against the name under
//! strict matching), an optional exact version filter, and a yank
//! policy: yanked invoices are excluded unless explicitly requested.
//! Matches are reported in catalog order — the stores' creation order —
//! which is deterministic for a fixed catalog, so pagination through
//! `offset` and `limit` is stable.
//!
//! The version filter matches the version string exactly; a richer
//! range syntax would be a separate, explicit decision.

use vstd::prelude::*;

use crate::invoice::{invoice_key, invoices_view, lemma_invoices_view_push, Invoice, InvoiceV};
use crate::invoice_store::{catalog_map, catalog_wf, yank_effect, yanked_of, InvoiceStore};

verus! {

/// The default number of matches a query returns when no limit is
/// given.
pub const DEFAULT_QUERY_LIMIT: u8 = 50;

/// Resolved options of one query: how to match and which page to
/// return.  The free-text term and the version filter travel beside
/// these as plain strings.
#[derive(Debug, Clone, Copy, PartialEq, Eq, Structural)]
pub struct SearchOptions {
    /// Maximum number of matches to return.
    pub limit: u8,
    /// Number of leading matches to skip.
    pub offset: u64,
    /// Whether the term must equal the name instead of matching
    /// loosely.
    pub strict: bool,
    /// Whether yanked invoices are included.
    pub yanked: bool,
}

impl Default for SearchOptions {
    /// The default policy: first page of up to [`DEFAULT_QUERY_LIMIT`]
    /// matches, loose matching, yanked invoices excluded.
    fn default() -> (r: SearchOptions)
        ensures
            r == (SearchOptions { limit: DEFAULT_QUERY_LIMIT, offset: 0, strict: false, yanked: false }),
    {
        SearchOptions { limit: DEFAULT_QUERY_LIMIT, offset: 0, strict: false, yanked: false }
    }
}

/// Everything a query selects by, as one mathematical value.
#[verifier::ext_equal]
pub ghost struct SelectorV {
    pub term: Seq<char>,
    pub version: Seq<char>,
    pub strict: bool,
    pub yanked: bool,
}

/// The selector of a query with term `term`, version filter `version`
/// and options `opts`.  An empty term or version means "no filter".
pub open spec fn selector_of(term: Seq<char>, version: Seq<char>, opts: SearchOptions) -> SelectorV {
    SelectorV { term, version, strict: opts.strict, yanked: opts.yanked }
}

/// `needle` occurs in `hay` starting at position `k`.
pub open spec fn is_substring_at(hay: Seq<char>, needle: Seq<char>, k: int) -> bool {
    0 <= k && k + needle.len() <= hay.len()
    && hay.subrange(k, k + needle.len() as int) == needle
}

/// `needle` occurs somewhere in `hay`.
pub open spec fn is_substring(hay: Seq<char>, needle: Seq<char>) -> bool {
    exists|k: int| is_substring_at(hay, needle, k)
}

/// The free-text term of `sel` matches `inv`: vacuously when empty,
/// exactly against the name under strict matching, and otherwise as a
/// substring of the name or of the description.
pub open spec fn term_matches(inv: InvoiceV, sel: SelectorV) -> bool {
    if sel.term.len() == 0 {
        true
    } else if sel.strict {
        inv.name == sel.term
    } else {
        is_substring(inv.name, sel.term)
        || (inv.description matches Some(d) && is_substring(d, sel.term))
    }
}

/// The version filter of `sel` matches `inv`: vacuously when empty,
/// else exactly.
pub open spec fn version_matches(inv: InvoiceV, sel: SelectorV) -> bool {
    sel.version.len() == 0 || inv.version == sel.version
}

/// `inv` is selected by `sel`.
pub open spec fn invoice_matches(inv: InvoiceV, sel: SelectorV) -> bool {
    (sel.yanked || !inv.yanked) && term_matches(inv, sel) && version_matches(inv, sel)
}

/// All invoices of the catalog `s` selected by `sel`, in catalog order.
pub open spec fn query_matches(s: Seq<InvoiceV>, sel: SelectorV) -> Seq<InvoiceV>
    decreases s.len(),
{
    if s.len() == 0 {
        Seq::empty()
    } else {
        let rest = query_matches(s.drop_last(), sel);
        if invoice_matches(s.last(), sel) {
            rest.push(s.last())
        } else {
            rest
        }
    }
}

/// The page of matches selected by `offset` and `limit`: up to `limit`
/// matches after skipping the first `offset`, clipped to what exists.
pub open spec fn query_page(s: Seq<InvoiceV>, sel: SelectorV, offset: int, limit: int) -> Seq<InvoiceV>
    recommends
        0 <= offset,
        0 <= limit,
{
    let m = query_matches(s, sel);
    let lo = if offset <= m.len() { offset } else { m.len() as int };
    let hi = if offset + limit <= m.len() { offset + limit } else { m.len() as int };
    m.subrange(lo, hi)
}

/// Whether `needle` occurs in `hay` starting exactly at `k`.
#[verifier::loop_isolation(false)]
fn matches_at(hay: &str, needle: &str, k: usize) -> (b: bool)
    requires
        k + needle@.len() <= hay@.len(),
    ensures
        b == is_substring_at(hay@, needle@, k as int),
{
    let hlen = hay.unicode_len();
    let nlen = needle.unicode_len();
    let mut j: usize = 0;
    while j < nlen
        invariant
            0 <= j <= nlen,
            forall|t: int| 0 <= t < j ==> hay@[k + t] == needle@[t],
        decreases nlen - j,
    {
        if hay.get_char(k + j) != needle.get_char(j) {
            proof {
                assert(hay@.subrange(k as int, k as int + needle@.len() as int)[j as int]
                    == hay@[k + j]);
            }
            return false;
        }
        j = j + 1;
    }
    proof {
        assert(hay@.subrange(k as int, k as int + needle@.len() as int) =~= needle@);
    }
    true
}

/// Whether `needle` occurs anywhere in `hay`.
#[verifier::loop_isolation(false)]
fn str_contains(hay: &str, needle: &str) -> (b: bool)
    ensures
        b == is_substring(hay@, needle@),
{
    let hlen = hay.unicode_len();
    let nlen = needle.unicode_len();
    if nlen == 0 {
        proof {
            assert(hay@.subrange(0, 0) =~= needle@);
            assert(is_substring_at(hay@, needle@, 0));
        }
        return true;
    }
    if nlen > hlen {
        proof {
            if is_substring(hay@, needle@) {
                let k = choose|k: int| is_substring_at(hay@, needle@, k);
            }
        }
        return false;
    }
    let mut k: usize = 0;
    while k <= hlen - nlen
        invariant
            0 <= k <= hlen - nlen + 1,
            forall|t: int| 0 <= t < k ==> !is_substring_at(hay@, needle@, t),
        decreases hlen - nlen - k + 1,
    {
        if matches_at(hay, needle, k) {
            return true;
        }
        k = k + 1;
    }
    proof {
        if is_substring(hay@, needle@) {
            let t = choose|t: int| is_substring_at(hay@, needle@, t);
            assert(t < k);
        }
    }
    false
}

/// Whether `inv` is selected by the query `(term, version, opts)`.
pub fn invoice_is_match(inv: &Invoice, term: &String, version: &String, opts: &SearchOptions) -> (b: bool)
    ensures
        b == invoice_matches(inv@, selector_of(term@, version@, *opts)),
{
    if !opts.yanked && inv.yanked {
        return false;
    }
    let term_ok = if term.as_str().is_empty() {
        true
    } else if opts.strict {
        inv.name == *term
    } else if str_contains(inv.name.as_str(), term.as_str()) {
        true
    } else {
        match &inv.description {
            Some(d) => str_contains(d.as_str(), term.as_str()),
            None => false,
        }
    };
    if !term_ok {
        return false;
    }
    if !version.as_str().is_empty() && inv.version != *version {
        return false;
    }
    true
}

/// One page of query results: the selected invoices and the total
/// number of matches before pagination.
#[derive(Debug)]
pub struct QueryResult {
    pub invoices: Vec<Invoice>,
    pub total: u64,
}

/// Runs the query `(term, version, opts)` against the catalog.
///
/// `total` counts every match; `invoices` is the page selected by
/// `opts.offset` and `opts.limit`, in catalog order.
#[verifier::loop_isolation(false)]
pub fn query(store: &InvoiceStore, term: &String, version: &String, opts: &SearchOptions) -> (r: QueryResult)
    ensures
        ({
            let sel = selector_of(term@, version@, *opts);
            &&& r.total == query_matches(store@, sel).len()
            &&& invoices_view(r.invoices@)
                == query_page(store@, sel, opts.offset as int, opts.limit as int)
        }),
{
    let ghost sel = selector_of(term@, version@, *opts);
    let n = store.len();
    let mut selected: Vec<Invoice> = Vec::new();
    let mut i: usize = 0;
    while i < n
        invariant
            0 <= i <= n,
            invoices_view(selected@) == query_matches(store@.subrange(0, i as int), sel),
        decreases n - i,
    {
        let ghost prefix = store@.subrange(0, i as int);
        let ghost prefix1 = store@.subrange(0, i as int + 1);
        proof {
            assert(prefix1.drop_last() =~= prefix);
            assert(prefix1.last() == store@[i as int]);
        }
        let inv = store.at(i);
        if invoice_is_match(inv, term, version, opts) {
            let d = inv.duplicate();
            proof {
                lemma_invoices_view_push(selected@, d);
                assert(query_matches(prefix1, sel)
                    == query_matches(prefix, sel).push(store@[i as int]));
            }
            selected.push(d);
        } else {
            proof {
                assert(query_matches(prefix1, sel) == query_matches(prefix, sel));
            }
        }
        i = i + 1;
    }
    proof {
        assert(store@.subrange(0, n as int) =~= store@);
    }
    let ghost matches = query_matches(store@, sel);
    let total = selected.len();
    let offset = opts.offset;
    let limit = opts.limit as u64;
    let lo_w: u64 = if offset <= total as u64 { offset } else { total as u64 };
    let remaining: u64 = total as u64 - lo_w;
    let take: u64 = if limit <= remaining { limit } else { remaining };
    let lo: usize = lo_w as usize;
    let hi: usize = (lo_w + take) as usize;
    proof {
        assert(matches.len() == total);
        assert(lo as int == if offset as int <= matches.len() { offset as int } else { matches.len() as int });
        assert(hi as int == if offset as int + limit as int <= matches.len() {
            offset as int + limit as int
        } else {
            matches.len() as int
        });
    }
    let mut page: Vec<Invoice> = Vec::new();
    let mut j: usize = lo;
    while j < hi
        invariant
            lo <= j <= hi,
            hi <= selected@.len(),
            invoices_view(page@) == matches.subrange(lo as int, j as int),
        decreases hi - j,
    {
        proof {
            assert(matches.subrange(lo as int, j as int + 1).drop_last()
                =~= matches.subrange(lo as int, j as int));
            assert(matches.subrange(lo as int, j as int + 1).last() == matches[j as int]);
            assert(matches[j as int] == invoices_view(selected@)[j as int]);
        }
        let d = selected[j].duplicate();
        proof {
            lemma_invoices_view_push(page@, d);
        }
        page.push(d);
        j = j + 1;
    }
    proof {
        assert(invoices_view(page@) == query_page(store@, sel, opts.offset as int, opts.limit as int));
    }
    QueryResult { invoices: page, total: total as u64 }
}

/// Search pagination is stable: against a fixed catalog, the page at
/// `offset` of length `l1` followed by the page at `offset + l1` of
/// length `l2` is exactly the page at `offset` of length `l1 + l2` —
/// consecutive pages are disjoint, order-consistent, and concatenate.
pub proof fn lemma_pagination_stable(
    s: Seq<InvoiceV>,
    sel: SelectorV,
    offset: int,
    l1: int,
    l2: int,
)
    requires
        0 <= offset,
        0 <= l1,
        0 <= l2,
    ensures
        query_page(s, sel, offset, l1) + query_page(s, sel, offset + l1, l2)
            == query_page(s, sel, offset, l1 + l2),
{
    assert(query_page(s, sel, offset, l1) + query_page(s, sel, offset + l1, l2)
        =~= query_page(s, sel, offset, l1 + l2));
}

/// Membership in the query result: exactly the catalog's invoices that
/// the selector matches.
pub proof fn lemma_query_matches_iff(s: Seq<InvoiceV>, sel: SelectorV, inv: InvoiceV)
    ensures
        query_matches(s, sel).contains(inv) <==> (s.contains(inv) && invoice_matches(inv, sel)),
    decreases s.len(),
{
    if s.len() > 0 {
        let prev = s.drop_last();
        lemma_query_matches_iff(prev, sel, inv);
        assert(s.contains(inv) <==> (prev.contains(inv) || s.last() == inv)) by {
            if s.contains(inv) {
                let i = choose|i: int| 0 <= i < s.len() && s[i] == inv;
                if i < s.len() - 1 {
                    assert(prev[i] == inv);
                    assert(prev.contains(inv));
                }
            }
            if prev.contains(inv) {
                let i = choose|i: int| 0 <= i < prev.len() && prev[i] == inv;
                assert(s[i] == inv);
            }
            if s.last() == inv {
                assert(s[s.len() - 1] == inv);
            }
        }
        if invoice_matches(s.last(), sel) {
            let m = query_matches(prev, sel);
            assert(query_matches(s, sel) == m.push(s.last()));
            assert(m.push(s.last()).contains(inv) <==> (m.contains(inv) || s.last() == inv)) by {
                if m.push(s.last()).contains(inv) {
                    let i = choose|i: int| 0 <= i < m.push(s.last()).len()
                        && m.push(s.last())[i] == inv;
                    if i < m.len() {
                        assert(m[i] == inv);
                        assert(m.contains(inv));
                    }
                }
                if m.contains(inv) {
                    let i = choose|i: int| 0 <= i < m.len() && m[i] == inv;
                    assert(m.push(s.last())[i] == inv);
                }
                if s.last() == inv {
                    assert(m.push(s.last())[m.len() as int] == inv);
                }
            }
        }
    }
}

/// Yank filtering: after yanking key `k`, the document under `k` is the
/// old document with its flag raised; a default query (`yanked` false)
/// never returns it, a query that opts into yanked results returns it
/// whenever its term and version filters select it, and a direct read
/// of the store still resolves the key either way.
pub proof fn lemma_yank_filtering(s: Seq<InvoiceV>, k: (Seq<char>, Seq<char>), sel: SelectorV)
    requires
        catalog_wf(s),
        catalog_map(s).contains_key(k),
    ensures
        ({
            let t = yank_effect(s, k);
            let doc = catalog_map(t)[k];
            &&& catalog_map(t).contains_key(k)
            &&& doc == yanked_of(catalog_map(s)[k])
            &&& !sel.yanked ==> !query_matches(t, sel).contains(doc)
            &&& (sel.yanked && term_matches(doc, sel) && version_matches(doc, sel))
                ==> query_matches(t, sel).contains(doc)
        }),
{
    let key = |e: InvoiceV| invoice_key(e);
    let t = yank_effect(s, k);
    crate::invoice_store::lemma_yank_preserves_keys(s, k);
    crate::keyed::lemma_keyed_map_facts(s, key);
    crate::keyed::lemma_keyed_map_facts(t, key);
    let i = choose|i: int| 0 <= i < s.len() && key(#[trigger] s[i]) == k;
    assert(t[i] == yanked_of(s[i]));
    assert(key(t[i]) == k);
    assert(catalog_map(t)[k] == t[i]);
    assert(catalog_map(s)[k] == s[i]);
    let doc = catalog_map(t)[k];
    lemma_query_matches_iff(t, sel, doc);
    assert(doc.yanked);
    assert(t.contains(doc)) by {
        assert(t[i] == doc);
    }
}

} // verus!
