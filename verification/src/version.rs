//! Semantic versions.
//!
//! An invoice names its release with a semantic version.  The shape this
//! engine accepts is `major.minor.patch`: three dot-separated decimal
//! numerals, each nonempty, digits only, with no leading zero (except the
//! single digit `0`), and each small enough to fit a `u64`.  Pre-release
//! and build annotations are deliberately not part of the accepted shape;
//! widening it would be an explicit, documented decision.

use vstd::prelude::*;

verus! {

/// A parsed semantic version.
#[derive(Debug, Clone, Copy, PartialEq, Eq, Structural)]
pub struct Version {
    pub major: u64,
    pub minor: u64,
    pub patch: u64,
}

/// `c` is a decimal digit.
pub open spec fn is_digit(c: char) -> bool {
    '0' as int <= c as int && c as int <= '9' as int
}

/// The numeric value of the digit `c`.
pub open spec fn digit_val(c: char) -> nat {
    (c as int - '0' as int) as nat
}

/// Every character of `s` is a decimal digit.
pub open spec fn all_digits(s: Seq<char>) -> bool {
    forall|i: int| 0 <= i < s.len() ==> is_digit(#[trigger] s[i])
}

/// The value of `s` read as a decimal numeral.
pub open spec fn digits_val(s: Seq<char>) -> nat
    decreases s.len(),
{
    if s.len() == 0 {
        0
    } else {
        digits_val(s.drop_last()) * 10 + digit_val(s.last())
    }
}

/// A well-formed numeric version component: nonempty, digits only, and no
/// leading zero (except for the single digit `0` itself).
pub open spec fn is_numeric_component(s: Seq<char>) -> bool {
    s.len() > 0 && all_digits(s) && (s.len() == 1 || s[0] != '0')
}

/// `s` is `major.minor.patch`, with the two dots standing at `i` and `j`.
pub open spec fn is_semver_at(s: Seq<char>, i: int, j: int) -> bool {
    &&& 0 <= i < j < s.len()
    &&& s[i] == '.'
    &&& s[j] == '.'
    &&& is_numeric_component(s.subrange(0, i))
    &&& is_numeric_component(s.subrange(i + 1, j))
    &&& is_numeric_component(s.subrange(j + 1, s.len() as int))
}

/// The three components of the split at `(i, j)` each fit in a `u64`.
pub open spec fn semver_fits_at(s: Seq<char>, i: int, j: int) -> bool {
    &&& digits_val(s.subrange(0, i)) <= u64::MAX
    &&& digits_val(s.subrange(i + 1, j)) <= u64::MAX
    &&& digits_val(s.subrange(j + 1, s.len() as int)) <= u64::MAX
}

/// `s` parses as a semantic version representable by [`Version`].
pub open spec fn parses_as_semver(s: Seq<char>) -> bool {
    exists|i: int, j: int| #[trigger] is_semver_at(s, i, j) && semver_fits_at(s, i, j)
}

/// Reading a longer numeral can only yield a larger value: the value of
/// `s` dominates the value of any of its prefixes.
proof fn lemma_digits_val_prefix(s: Seq<char>, k: int)
    requires
        0 <= k <= s.len(),
    ensures
        digits_val(s) >= digits_val(s.subrange(0, k)),
    decreases s.len() - k,
{
    if k == s.len() {
        assert(s.subrange(0, k) =~= s);
    } else {
        assert(s.drop_last().subrange(0, k) =~= s.subrange(0, k));
        lemma_digits_val_prefix(s.drop_last(), k);
        assert(digits_val(s) == digits_val(s.drop_last()) * 10 + digit_val(s.last()));
        assert(digits_val(s.drop_last()) * 10 >= digits_val(s.drop_last()));
    }
}

/// In a well-formed split, the dot positions are forced: `i` must be the
/// first dot of `s` and `j` the first dot after it, because the
/// components on either side consist of digits only.  In particular two
/// well-formed splits of one string coincide, so the component values
/// [`parse_version`] promises are determined by the string alone.
pub proof fn lemma_split_is_pinned(s: Seq<char>, i: int, j: int, d1: int, d2: int)
    requires
        is_semver_at(s, i, j),
        0 <= d1 < s.len(),
        s[d1] == '.',
        forall|t: int| 0 <= t < d1 ==> s[t] != '.',
        d1 < d2 < s.len(),
        s[d2] == '.',
        forall|t: int| d1 < t < d2 ==> s[t] != '.',
    ensures
        i == d1 && j == d2,
{
    assert(!is_digit('.'));
    if i < d1 {
        assert(s[i] != '.');
    } else if i > d1 {
        assert(s.subrange(0, i)[d1] == s[d1]);
        assert(is_digit(s[d1]));
    }
    assert(i == d1);
    if j < d2 {
        assert(s[j] != '.');
    } else if j > d2 {
        assert(s.subrange(i + 1, j)[d2 - (i + 1)] == s[d2]);
        assert(is_digit(s[d2]));
    }
}

/// Finds the first `.` of `s` at or after position `from`.
fn find_dot(s: &str, from: usize) -> (r: Option<usize>)
    requires
        from <= s@.len(),
    ensures
        match r {
            Some(k) => from <= k < s@.len() && s@[k as int] == '.'
                && (forall|t: int| from <= t < k ==> s@[t] != '.'),
            None => forall|t: int| from <= t < s@.len() ==> s@[t] != '.',
        },
{
    let len = s.unicode_len();
    let mut k = from;
    while k < len
        invariant
            from <= k <= len,
            len == s@.len(),
            forall|t: int| from <= t < k ==> s@[t] != '.',
        decreases len - k,
    {
        if s.get_char(k) == '.' {
            return Some(k);
        }
        k = k + 1;
    }
    None
}

/// Checks the range `s[from..to]` as one numeric version component and
/// returns its value; `None` when the range is not a well-formed
/// component or its value does not fit a `u64`.
fn parse_component(s: &str, from: usize, to: usize) -> (r: Option<u64>)
    requires
        from <= to <= s@.len(),
    ensures
        ({
            let comp = s@.subrange(from as int, to as int);
            match r {
                Some(v) => is_numeric_component(comp) && v == digits_val(comp),
                None => !(is_numeric_component(comp) && digits_val(comp) <= u64::MAX),
            }
        }),
{
    let ghost comp = s@.subrange(from as int, to as int);
    if from == to {
        return None;
    }
    if to - from > 1 && s.get_char(from) == '0' {
        assert(comp[0] == '0');
        return None;
    }
    let mut acc: u64 = 0;
    let mut k = from;
    while k < to
        invariant
            from <= k <= to,
            to <= s@.len(),
            from < to,
            comp == s@.subrange(from as int, to as int),
            all_digits(s@.subrange(from as int, k as int)),
            acc == digits_val(s@.subrange(from as int, k as int)),
            to - from > 1 ==> s@[from as int] != '0',
        decreases to - k,
    {
        let c = s.get_char(k);
        let cv = c as u32;
        let ghost prefix = s@.subrange(from as int, k as int);
        let ghost prefix1 = s@.subrange(from as int, k as int + 1);
        assert(prefix1.drop_last() =~= prefix);
        assert(prefix1.last() == s@[k as int]);
        if cv < '0' as u32 || cv > '9' as u32 {
            assert(comp[k - from] == s@[k as int]);
            assert(!is_digit(comp[k - from]));
            return None;
        }
        let d: u64 = (cv - '0' as u32) as u64;
        assert(digits_val(prefix1) == digits_val(prefix) * 10 + digit_val(s@[k as int]));
        if acc > u64::MAX / 10 || (acc == u64::MAX / 10 && d > u64::MAX % 10) {
            proof {
                assert(digits_val(prefix1) > u64::MAX);
                assert(comp.subrange(0, k + 1 - from) =~= prefix1);
                lemma_digits_val_prefix(comp, k + 1 - from);
            }
            return None;
        }
        acc = acc * 10 + d;
        k = k + 1;
    }
    assert(comp =~= s@.subrange(from as int, k as int));
    assert(comp.len() == 1 || comp[0] != '0');
    Some(acc)
}

/// Parses `s` as a `major.minor.patch` semantic version.
///
/// Succeeds exactly on the strings that [`parses_as_semver`] accepts, and
/// then returns the numeric value of each component.
pub fn parse_version(s: &str) -> (r: Option<Version>)
    ensures
        match r {
            Some(v) => exists|i: int, j: int|
                #[trigger] is_semver_at(s@, i, j)
                && v.major == digits_val(s@.subrange(0, i))
                && v.minor == digits_val(s@.subrange(i + 1, j))
                && v.patch == digits_val(s@.subrange(j + 1, s@.len() as int)),
            None => !parses_as_semver(s@),
        },
{
    let len = s.unicode_len();
    let d1 = match find_dot(s, 0) {
        Some(k) => k,
        None => {
            proof {
                if parses_as_semver(s@) {
                    let (i, j) = choose|i: int, j: int|
                        #[trigger] is_semver_at(s@, i, j) && semver_fits_at(s@, i, j);
                    assert(s@[i] == '.');
                }
            }
            return None;
        },
    };
    let d2 = match find_dot(s, d1 + 1) {
        Some(k) => k,
        None => {
            proof {
                if parses_as_semver(s@) {
                    let (i, j) = choose|i: int, j: int|
                        #[trigger] is_semver_at(s@, i, j) && semver_fits_at(s@, i, j);
                    // two distinct dots would be needed, but the only dot is d1
                    assert(s@[i] == '.' && s@[j] == '.' && i < j);
                    assert(i >= d1 && j >= d1);
                    assert(i <= d1);
                }
            }
            return None;
        },
    };
    if let Some(d3) = find_dot(s, d2 + 1) {
        proof {
            if parses_as_semver(s@) {
                let (i, j) = choose|i: int, j: int|
                    #[trigger] is_semver_at(s@, i, j) && semver_fits_at(s@, i, j);
                lemma_split_is_pinned(s@, i, j, d1 as int, d2 as int);
                assert(s@.subrange(j + 1, s@.len() as int)[d3 - (j + 1)] == s@[d3 as int]);
                assert(is_digit(s@[d3 as int]));
                assert(!is_digit('.'));
            }
        }
        return None;
    }
    let major = parse_component(s, 0, d1);
    let minor = parse_component(s, d1 + 1, d2);
    let patch = parse_component(s, d2 + 1, len);
    match (major, minor, patch) {
        (Some(m), Some(n), Some(p)) => {
            proof {
                assert(is_semver_at(s@, d1 as int, d2 as int));
            }
            Some(Version { major: m, minor: n, patch: p })
        },
        _ => {
            proof {
                if parses_as_semver(s@) {
                    let (i, j) = choose|i: int, j: int|
                        #[trigger] is_semver_at(s@, i, j) && semver_fits_at(s@, i, j);
                    lemma_split_is_pinned(s@, i, j, d1 as int, d2 as int);
                }
            }
            None
        },
    }
}

/// Whether `s` is acceptable as an invoice's version field.
pub fn version_is_well_formed(s: &String) -> (b: bool)
    ensures
        b == parses_as_semver(s@),
{
    let r = parse_version(s.as_str());
    proof {
        if r is Some {
            let (i, j) = choose|i: int, j: int|
                #[trigger] is_semver_at(s@, i, j)
                && r->Some_0.major == digits_val(s@.subrange(0, i))
                && r->Some_0.minor == digits_val(s@.subrange(i + 1, j))
                && r->Some_0.patch == digits_val(s@.subrange(j + 1, s@.len() as int));
            assert(is_semver_at(s@, i, j) && semver_fits_at(s@, i, j));
        }
    }
    r.is_some()
}

} // verus!
