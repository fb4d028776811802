//! Version-tag normalization: strict semantic-version parsing with a
//! loose numeric fallback, and the canonical rendering of versions.

use vstd::prelude::*;

use crate::errors::{Error, ErrorKind};

verus! {

// ---------------------------------------------------------------------------
// Decimal digits
// ---------------------------------------------------------------------------

/// True when `c` is an ASCII decimal digit.
pub open spec fn is_digit(c: char) -> bool {
    48 <= c as int && c as int <= 57
}

/// The numeric value of an ASCII decimal digit.
pub open spec fn digit_val(c: char) -> nat {
    (c as int - 48) as nat
}

/// The value of a string of decimal digits, most significant first.
pub open spec fn dec_val(s: Seq<char>) -> nat
    decreases s.len(),
{
    if s.len() == 0 {
        0
    } else {
        dec_val(s.drop_last()) * 10 + digit_val(s.last())
    }
}

/// The digit character for a value below ten.
pub open spec fn digit_char(d: nat) -> char {
    if d == 0 {
        '0'
    } else if d == 1 {
        '1'
    } else if d == 2 {
        '2'
    } else if d == 3 {
        '3'
    } else if d == 4 {
        '4'
    } else if d == 5 {
        '5'
    } else if d == 6 {
        '6'
    } else if d == 7 {
        '7'
    } else if d == 8 {
        '8'
    } else {
        '9'
    }
}

/// The canonical decimal rendering of `n`: no sign, no leading zeros.
pub open spec fn dec_str(n: nat) -> Seq<char>
    decreases n,
{
    if n < 10 {
        seq![digit_char(n)]
    } else {
        dec_str(n / 10).push(digit_char(n % 10))
    }
}

/// A decimal rendering is never empty and consists of digits.
pub proof fn lemma_dec_str_digits(n: nat)
    ensures
        dec_str(n).len() >= 1,
        forall|i: int| 0 <= i < dec_str(n).len() ==> is_digit(dec_str(n)[i]),
    decreases n,
{
    if n < 10 {
        assert(is_digit(dec_str(n)[0]));
    } else {
        lemma_dec_str_digits(n / 10);
        assert forall|i: int| 0 <= i < dec_str(n).len() implies is_digit(dec_str(n)[i]) by {
            if i < dec_str(n / 10).len() {
                assert(dec_str(n)[i] == dec_str(n / 10)[i]);
            } else {
                assert(dec_str(n)[i] == digit_char(n % 10));
            }
        }
    }
}

/// Reading a decimal rendering back gives the rendered value.
pub proof fn lemma_dec_val_dec_str(n: nat)
    ensures
        dec_val(dec_str(n)) == n,
    decreases n,
{
    if n < 10 {
        assert(dec_str(n).drop_last() =~= Seq::<char>::empty());
        assert(dec_val(Seq::<char>::empty()) == 0);
        assert(dec_str(n).last() == digit_char(n));
        assert(dec_val(dec_str(n)) == digit_val(digit_char(n)));
    } else {
        lemma_dec_val_dec_str(n / 10);
        assert(dec_str(n).drop_last() =~= dec_str(n / 10));
        assert(dec_str(n).last() == digit_char(n % 10));
        assert(digit_val(digit_char(n % 10)) == n % 10);
        assert(dec_val(dec_str(n)) == (n / 10) * 10 + n % 10);
    }
}

/// The length of the maximal prefix of `s` made of decimal digits.
pub open spec fn digit_prefix_len(s: Seq<char>) -> nat
    decreases s.len(),
{
    if s.len() > 0 && is_digit(s[0]) {
        (1 + digit_prefix_len(s.drop_first())) as nat
    } else {
        0
    }
}

/// The maximal digit prefix is no longer than the string, consists of
/// digits, and is followed by a non-digit when anything follows it.
pub proof fn lemma_digit_prefix_len(s: Seq<char>)
    ensures
        digit_prefix_len(s) <= s.len(),
        forall|i: int| 0 <= i < digit_prefix_len(s) ==> is_digit(s[i]),
        digit_prefix_len(s) < s.len() ==> !is_digit(s[digit_prefix_len(s) as int]),
    decreases s.len(),
{
    if s.len() > 0 && is_digit(s[0]) {
        lemma_digit_prefix_len(s.drop_first());
        assert forall|i: int| 0 <= i < digit_prefix_len(s) implies is_digit(s[i]) by {
            if i > 0 {
                assert(is_digit(s.drop_first()[i - 1]));
            }
        }
        if digit_prefix_len(s) < s.len() {
            assert(!is_digit(s.drop_first()[digit_prefix_len(s) - 1]));
        }
    }
}

/// Any bound `j` with digits before it and a non-digit (or the end) at it
/// is exactly the maximal digit prefix length.
pub proof fn lemma_digit_prefix_len_unique(s: Seq<char>, j: int)
    requires
        0 <= j <= s.len(),
        forall|i: int| 0 <= i < j ==> is_digit(s[i]),
        j < s.len() ==> !is_digit(s[j]),
    ensures
        digit_prefix_len(s) == j,
    decreases s.len(),
{
    if j == 0 {
    } else {
        assert(is_digit(s[0]));
        assert forall|i: int| 0 <= i < j - 1 implies is_digit(s.drop_first()[i]) by {
            assert(is_digit(s[i + 1]));
        }
        lemma_digit_prefix_len_unique(s.drop_first(), j - 1);
    }
}

/// True when `c` is an ASCII decimal digit.
pub fn is_digit_char(c: char) -> (r: bool)
    ensures
        r == is_digit(c),
{
    let u = c as u32;
    48 <= u && u <= 57
}

// ---------------------------------------------------------------------------
// Rendering integers as decimal strings
// ---------------------------------------------------------------------------

/// The one-character string for a decimal digit value.
fn digit_str(d: u64) -> (r: &'static str)
    requires
        d < 10,
    ensures
        r@ == seq![digit_char(d as nat)],
{
    if d == 0 {
        proof { reveal_strlit("0"); }
        assert("0"@ =~= seq![digit_char(0)]);
        "0"
    } else if d == 1 {
        proof { reveal_strlit("1"); }
        assert("1"@ =~= seq![digit_char(1)]);
        "1"
    } else if d == 2 {
        proof { reveal_strlit("2"); }
        assert("2"@ =~= seq![digit_char(2)]);
        "2"
    } else if d == 3 {
        proof { reveal_strlit("3"); }
        assert("3"@ =~= seq![digit_char(3)]);
        "3"
    } else if d == 4 {
        proof { reveal_strlit("4"); }
        assert("4"@ =~= seq![digit_char(4)]);
        "4"
    } else if d == 5 {
        proof { reveal_strlit("5"); }
        assert("5"@ =~= seq![digit_char(5)]);
        "5"
    } else if d == 6 {
        proof { reveal_strlit("6"); }
        assert("6"@ =~= seq![digit_char(6)]);
        "6"
    } else if d == 7 {
        proof { reveal_strlit("7"); }
        assert("7"@ =~= seq![digit_char(7)]);
        "7"
    } else if d == 8 {
        proof { reveal_strlit("8"); }
        assert("8"@ =~= seq![digit_char(8)]);
        "8"
    } else {
        proof { reveal_strlit("9"); }
        assert("9"@ =~= seq![digit_char(9)]);
        "9"
    }
}

/// Renders `n` in decimal, without leading zeros.
pub fn u64_to_string(n: u64) -> (r: String)
    ensures
        r@ == dec_str(n as nat),
    decreases n,
{
    if n < 10 {
        String::from_str(digit_str(n))
    } else {
        let mut s = u64_to_string(n / 10);
        s.append(digit_str(n % 10));
        proof {
            assert(s@ =~= dec_str((n / 10) as nat).push(digit_char((n % 10) as nat)));
        }
        s
    }
}

// ---------------------------------------------------------------------------
// Version values
// ---------------------------------------------------------------------------

/// A three-component semantic version, the result of normalizing a raw
/// registry version tag.
#[derive(Debug, Clone, Copy, PartialEq, Eq, Structural)]
pub struct Version {
    pub major: u64,
    pub minor: u64,
    pub patch: u64,
}

/// The canonical `major.minor.patch` rendering of a component triple.
pub open spec fn canonical_triple_seq(a: u64, b: u64, c: u64) -> Seq<char> {
    dec_str(a as nat) + seq!['.'] + dec_str(b as nat) + seq!['.'] + dec_str(c as nat)
}

impl Version {
    /// True when `self` orders at or below `other` in lexicographic
    /// (major, minor, patch) order.
    pub open spec fn spec_le(self, other: Version) -> bool {
        if self.major != other.major {
            self.major < other.major
        } else if self.minor != other.minor {
            self.minor < other.minor
        } else {
            self.patch <= other.patch
        }
    }

    /// The canonical rendering of this version.
    pub open spec fn spec_str(self) -> Seq<char> {
        canonical_triple_seq(self.major, self.minor, self.patch)
    }

    /// Lexicographic comparison on (major, minor, patch).
    pub fn le(&self, other: &Version) -> (r: bool)
        ensures
            r == self.spec_le(*other),
    {
        if self.major != other.major {
            self.major < other.major
        } else if self.minor != other.minor {
            self.minor < other.minor
        } else {
            self.patch <= other.patch
        }
    }

    /// Renders this version as `major.minor.patch`.
    pub fn to_version_string(&self) -> (r: String)
        ensures
            r@ == self.spec_str(),
    {
        let mut s = u64_to_string(self.major);
        proof { reveal_strlit("."); }
        s.append(".");
        s.append(u64_to_string(self.minor).as_str());
        s.append(".");
        s.append(u64_to_string(self.patch).as_str());
        proof {
            assert("."@ =~= seq!['.']);
            assert(s@ =~= canonical_triple_seq(self.major, self.minor, self.patch));
        }
        s
    }
}

// ---------------------------------------------------------------------------
// Strict semantic-version parsing (outside call)
// ---------------------------------------------------------------------------

/// The (major, minor, patch) triple that strict semantic-version parsing
/// extracts from a string, or `None` when the string is not a strict
/// semantic version.  The trailing pre-release and build text, if any, is
/// not part of the result.
pub uninterp spec fn semver_triple_of(s: Seq<char>) -> Option<(u64, u64, u64)>;

/// Relies on semver::Version::parse: the result is a function of the
/// characters alone, and a plain `major.minor.patch` rendering of u64
/// components (decimal, no leading zeros) parses to exactly those
/// components.
#[verifier::external_body]
fn parse_strict_semver(s: &str) -> (r: Option<(u64, u64, u64)>)
    ensures
        r == semver_triple_of(s@),
        forall|a: u64, b: u64, c: u64| s@ == #[trigger] canonical_triple_seq(a, b, c) ==> r == Some((a, b, c)),
{
    match semver::Version::parse(s) {
        Ok(v) => Some((v.major, v.minor, v.patch)),
        Err(_) => None,
    }
}

// ---------------------------------------------------------------------------
// Fallback normalization of loose version tags
// ---------------------------------------------------------------------------

/// The value a captured digit group contributes: its decimal value when it
/// fits sixteen bits, and zero otherwise (mirroring a lossy unsigned parse
/// whose failure defaults the component).
pub open spec fn group_val(s: Seq<char>) -> nat {
    if dec_val(s) <= 0xFFFF {
        dec_val(s)
    } else {
        0
    }
}

/// Normalization of a tag that is not a strict semantic version: a leading
/// digit run, then optionally `.` and a second run, then optionally `.` and
/// a third run; everything after that is discarded.  A tag that does not
/// begin with a digit does not normalize.
pub open spec fn spec_fallback_version(s: Seq<char>) -> Option<Version> {
    if s.len() == 0 || !is_digit(s[0]) {
        None
    } else {
        let d1 = digit_prefix_len(s) as int;
        let rest1 = s.skip(d1);
        if rest1.len() >= 2 && rest1[0] == '.' && is_digit(rest1[1]) {
            let t1 = rest1.skip(1);
            let d2 = digit_prefix_len(t1) as int;
            let rest2 = t1.skip(d2);
            if rest2.len() >= 2 && rest2[0] == '.' && is_digit(rest2[1]) {
                let t2 = rest2.skip(1);
                let d3 = digit_prefix_len(t2) as int;
                Some(Version {
                    major: group_val(s.take(d1)) as u64,
                    minor: group_val(t1.take(d2)) as u64,
                    patch: group_val(t2.take(d3)) as u64,
                })
            } else {
                Some(Version {
                    major: group_val(s.take(d1)) as u64,
                    minor: group_val(t1.take(d2)) as u64,
                    patch: 0,
                })
            }
        } else {
            Some(Version { major: group_val(s.take(d1)) as u64, minor: 0, patch: 0 })
        }
    }
}

/// What a raw version tag normalizes to: the strict semantic-version triple
/// when the tag is one, and otherwise the fallback reading of its leading
/// numeric run.
pub open spec fn spec_normalized_version(s: Seq<char>) -> Option<Version> {
    match semver_triple_of(s) {
        Some(t) => Some(Version { major: t.0, minor: t.1, patch: t.2 }),
        None => spec_fallback_version(s),
    }
}

/// Normalization is idempotent on its own output: any version whose
/// components the loose pattern can produce (each component fits sixteen
/// bits) reads back from its canonical `major.minor.patch` rendering as
/// exactly itself.  Together with the guarantee that a canonical rendering
/// also survives strict parsing unchanged, a normalized version rendered
/// and normalized again never moves.
pub proof fn lemma_fallback_roundtrip(v: Version)
    requires
        v.major <= 0xFFFF,
        v.minor <= 0xFFFF,
        v.patch <= 0xFFFF,
    ensures
        spec_fallback_version(v.spec_str()) == Some(v),
{
    let s = canonical_triple_seq(v.major, v.minor, v.patch);
    let a = dec_str(v.major as nat);
    let b = dec_str(v.minor as nat);
    let c = dec_str(v.patch as nat);
    lemma_dec_str_digits(v.major as nat);
    lemma_dec_str_digits(v.minor as nat);
    lemma_dec_str_digits(v.patch as nat);
    lemma_dec_val_dec_str(v.major as nat);
    lemma_dec_val_dec_str(v.minor as nat);
    lemma_dec_val_dec_str(v.patch as nat);
    let la = a.len() as int;
    let lb = b.len() as int;
    let lc = c.len() as int;

    assert forall|i: int| 0 <= i < la implies is_digit(s[i]) by {
        assert(s[i] == a[i]);
    }
    assert(s[la] == '.');
    assert(!is_digit('.'));
    lemma_digit_prefix_len_unique(s, la);
    assert(s.take(la) =~= a);

    let rest1 = s.skip(la);
    assert(rest1[0] == '.');
    assert(rest1[1] == b[0]);
    assert(is_digit(rest1[1]));
    let t1 = rest1.skip(1);
    assert(t1 =~= b + seq!['.'] + c);
    assert forall|i: int| 0 <= i < lb implies is_digit(t1[i]) by {
        assert(t1[i] == b[i]);
    }
    assert(t1[lb] == '.');
    lemma_digit_prefix_len_unique(t1, lb);
    assert(t1.take(lb) =~= b);

    let rest2 = t1.skip(lb);
    assert(rest2[0] == '.');
    assert(rest2[1] == c[0]);
    assert(is_digit(rest2[1]));
    let t2 = rest2.skip(1);
    assert(t2 =~= c);
    lemma_digit_prefix_len_unique(t2, lc);
    assert(t2.take(lc) =~= c);

    assert(group_val(a) == v.major);
    assert(group_val(b) == v.minor);
    assert(group_val(c) == v.patch);
}

/// The index just past the maximal run of digits starting at `start`.
pub(crate) fn digit_run_end(s: &str, start: usize) -> (r: usize)
    requires
        start <= s@.len(),
    ensures
        start <= r <= s@.len(),
        r - start == digit_prefix_len(s@.skip(start as int)),
        forall|k: int| start <= k < r ==> is_digit(s@[k]),
{
    let n = s.unicode_len();
    let mut i = start;
    loop
        invariant
            start <= i <= n,
            n == s@.len(),
            forall|k: int| start <= k < i ==> is_digit(s@[k]),
        ensures
            start <= i <= n,
            forall|k: int| start <= k < i ==> is_digit(s@[k]),
            i == n || !is_digit(s@[i as int]),
        decreases n - i,
    {
        if i >= n {
            break;
        }
        let c = s.get_char(i);
        if !is_digit_char(c) {
            break;
        }
        i = i + 1;
    }
    proof {
        let t = s@.skip(start as int);
        assert forall|k: int| 0 <= k < i - start implies is_digit(t[k]) by {
            assert(t[k] == s@[k + start]);
        }
        if i - start < t.len() {
            assert(t[i - start] == s@[i as int]);
        }
        lemma_digit_prefix_len_unique(t, i - start);
    }
    i
}

/// The value of the digit group `s[a..b]`, read as a bounded unsigned
/// integer that defaults to zero on overflow.
fn group_value(s: &str, a: usize, b: usize) -> (r: u64)
    requires
        a <= b <= s@.len(),
        forall|i: int| a <= i < b ==> is_digit(s@[i]),
    ensures
        r == group_val(s@.subrange(a as int, b as int)),
        r <= 0xFFFF,
{
    let mut i = a;
    let mut val: u64 = 0;
    let mut over = false;
    while i < b
        invariant
            a <= i <= b <= s@.len(),
            forall|k: int| a <= k < b ==> is_digit(s@[k]),
            !over ==> val == dec_val(s@.subrange(a as int, i as int)) && val <= 0xFFFF,
            over ==> dec_val(s@.subrange(a as int, i as int)) > 0xFFFF,
        decreases b - i,
    {
        let c = s.get_char(i);
        let d = (c as u32 - 48) as u64;
        proof {
            let pre = s@.subrange(a as int, i as int);
            let ext = s@.subrange(a as int, i + 1);
            assert(ext.drop_last() =~= pre);
            assert(ext.last() == s@[i as int]);
            assert(dec_val(ext) == dec_val(pre) * 10 + digit_val(s@[i as int]));
        }
        if over {
            proof {
                let pre = s@.subrange(a as int, i as int);
                assert(dec_val(pre) * 10 >= dec_val(pre));
            }
        } else {
            let next = val * 10 + d;
            if next > 0xFFFF {
                over = true;
                val = 0;
            } else {
                val = next;
            }
        }
        i = i + 1;
    }
    if over {
        0
    } else {
        val
    }
}

/// Builds the fallback reading of the whole tag.
#[verifier::rlimit(60)]
fn fallback_version(version: &str) -> (r: Result<Version, Error>)
    ensures
        match r {
            Ok(v) => spec_fallback_version(version@) == Some(v),
            Err(e) => {
                &&& spec_fallback_version(version@) is None
                &&& e.kind matches ErrorKind::NormalizeVersionStringRegexFailed(raw) && raw@ == version@
                &&& e.cause is None
            },
        },
{
    let n = version.unicode_len();
    if n == 0 || !is_digit_char(version.get_char(0)) {
        return Err(Error::new(ErrorKind::NormalizeVersionStringRegexFailed(version.to_owned())));
    }
    let e1 = digit_run_end(version, 0);
    proof {
        assert(version@.skip(0) =~= version@);
    }
    let major = group_value(version, 0, e1);
    proof {
        assert(version@.subrange(0, e1 as int) =~= version@.take(e1 as int));
    }
    let ghost rest1 = version@.skip(e1 as int);
    if n - e1 >= 2 && version.get_char(e1) == '.' && is_digit_char(version.get_char(e1 + 1)) {
        proof {
            assert(rest1[0] == version@[e1 as int]);
            assert(rest1[1] == version@[e1 + 1]);
        }
        let ghost t1 = rest1.skip(1);
        proof {
            assert(t1 =~= version@.skip(e1 + 1));
        }
        let e2 = digit_run_end(version, e1 + 1);
        let minor = group_value(version, e1 + 1, e2);
        proof {
            assert(version@.subrange(e1 + 1, e2 as int) =~= t1.take(digit_prefix_len(t1) as int));
        }
        let ghost rest2 = t1.skip(digit_prefix_len(t1) as int);
        proof {
            assert(rest2 =~= version@.skip(e2 as int));
        }
        if n - e2 >= 2 && version.get_char(e2) == '.' && is_digit_char(version.get_char(e2 + 1)) {
            proof {
                assert(rest2[0] == version@[e2 as int]);
                assert(rest2[1] == version@[e2 + 1]);
            }
            let ghost t2 = rest2.skip(1);
            proof {
                assert(t2 =~= version@.skip(e2 + 1));
            }
            let e3 = digit_run_end(version, e2 + 1);
            let patch = group_value(version, e2 + 1, e3);
            proof {
                assert(version@.subrange(e2 + 1, e3 as int) =~= t2.take(digit_prefix_len(t2) as int));
            }
            Ok(Version { major, minor, patch })
        } else {
            Ok(Version { major, minor, patch: 0 })
        }
    } else {
        Ok(Version { major, minor: 0, patch: 0 })
    }
}

/// Rewrites a loose version tag as a canonical `major.minor.patch` string:
/// leading zeros are stripped, missing components default to zero, and any
/// trailing non-numeric suffix is discarded.  Fails when the tag does not
/// begin with a digit.
pub fn normalize_version_string(version: &str) -> (r: Result<String, Error>)
    ensures
        match r {
            Ok(out) => {
                &&& spec_fallback_version(version@) is Some
                &&& out@ == spec_fallback_version(version@)->Some_0.spec_str()
            },
            Err(e) => {
                &&& spec_fallback_version(version@) is None
                &&& e.kind matches ErrorKind::NormalizeVersionStringRegexFailed(raw) && raw@ == version@
                &&& e.cause is None
            },
        },
{
    let v = fallback_version(version)?;
    Ok(v.to_version_string())
}

/// Normalizes a raw version tag into a three-component version: strict
/// semantic-version parsing is attempted first, and a tag that fails it is
/// read by the fallback pattern.  A canonical `major.minor.patch` rendering
/// always normalizes to exactly its own components.
pub fn normalize_and_parse_version_string(version: &str) -> (r: Result<Version, Error>)
    ensures
        match r {
            Ok(v) => spec_normalized_version(version@) == Some(v),
            Err(e) => {
                &&& spec_normalized_version(version@) is None
                &&& e.kind matches ErrorKind::NormalizeVersionStringRegexFailed(raw) && raw@ == version@
                &&& e.cause is None
            },
        },
        forall|v: Version| version@ == #[trigger] canonical_triple_seq(v.major, v.minor, v.patch)
            ==> r == Ok::<Version, Error>(v),
{
    match parse_strict_semver(version) {
        Some(t) => Ok(Version { major: t.0, minor: t.1, patch: t.2 }),
        None => fallback_version(version),
    }
}

} // verus!
