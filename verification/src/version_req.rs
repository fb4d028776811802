//! The requirement-line grammar: package names, comparison operators,
//! dotted version literals, and the rendering of parsed requirements.

use vstd::prelude::*;

use crate::errors::{Error, ErrorKind};
use crate::version::{dec_str, dec_val, digit_prefix_len, is_digit, is_digit_char,
    lemma_digit_prefix_len, lemma_digit_prefix_len_unique, u64_to_string};

verus! {

// ---------------------------------------------------------------------------
// Requirement model
// ---------------------------------------------------------------------------

/// A comparison operator of a version constraint.
#[derive(Debug, Clone, Copy, PartialEq, Eq)]
pub enum CompareOp {
    Lt,
    Le,
    Gt,
    Ge,
    Exact,
}

/// A dotted numeric version literal of up to three components, keeping
/// which components were written.
#[derive(Debug, Clone, Copy, PartialEq, Eq)]
pub struct ConstraintVersion {
    pub major: u64,
    pub minor: Option<u64>,
    pub patch: Option<u64>,
}

/// One version constraint: a comparison operator and a version literal.
#[derive(Debug, Clone, Copy, PartialEq, Eq)]
pub struct VersionConstraint {
    pub op: CompareOp,
    pub version: ConstraintVersion,
}

/// A requirement on one package: its name and the conjunction of the
/// version constraints found for it, in the order they were written.
#[derive(Debug, Clone, PartialEq, Eq)]
pub struct PackageVersionReq {
    pub package_name: String,
    pub version_reqs: Vec<VersionConstraint>,
}

/// The ways parsing one requirement line can fail.
#[derive(Debug, Clone, Copy, PartialEq, Eq)]
pub enum LineError {
    /// The line holds no run of word characters to serve as a name.
    NoName,
    /// A constraint substring has an invalid operator or an oversized
    /// numeric component.
    BadConstraint,
}

/// The mathematical content of a sequence of parsed requirements: each as
/// (name characters, constraints).
pub open spec fn reqs_models(v: Seq<PackageVersionReq>) -> Seq<(Seq<char>, Seq<VersionConstraint>)> {
    v.map_values(|r: PackageVersionReq| (r.package_name@, r.version_reqs@))
}

// ---------------------------------------------------------------------------
// Word characters and the package name
// ---------------------------------------------------------------------------

/// True when `c` is a word character: an ASCII letter, digit or underscore.
pub open spec fn is_word_char(c: char) -> bool {
    (97 <= c as int && c as int <= 122) || (65 <= c as int && c as int <= 90) || is_digit(c) || c
        == '_'
}

/// The length of the maximal prefix of `s` made of word characters.
pub open spec fn word_prefix_len(s: Seq<char>) -> nat
    decreases s.len(),
{
    if s.len() > 0 && is_word_char(s[0]) {
        (1 + word_prefix_len(s.drop_first())) as nat
    } else {
        0
    }
}

/// Any bound `j` with word characters before it and a non-word character
/// (or the end) at it is exactly the maximal word prefix length.
pub proof fn lemma_word_prefix_len_unique(s: Seq<char>, j: int)
    requires
        0 <= j <= s.len(),
        forall|i: int| 0 <= i < j ==> is_word_char(s[i]),
        j < s.len() ==> !is_word_char(s[j]),
    ensures
        word_prefix_len(s) == j,
    decreases s.len(),
{
    if j == 0 {
    } else {
        assert(is_word_char(s[0]));
        assert forall|i: int| 0 <= i < j - 1 implies is_word_char(s.drop_first()[i]) by {
            assert(is_word_char(s[i + 1]));
        }
        lemma_word_prefix_len_unique(s.drop_first(), j - 1);
    }
}

/// The first maximal run of word characters in `s`, if any: the package
/// name a requirement line carries.
pub open spec fn spec_name_match(s: Seq<char>) -> Option<Seq<char>>
    decreases s.len(),
{
    if s.len() == 0 {
        None
    } else if is_word_char(s[0]) {
        Some(s.take(word_prefix_len(s) as int))
    } else {
        spec_name_match(s.drop_first())
    }
}

/// Locating the first word character at index `f` determines the name
/// match: none when there is no word character, and otherwise the maximal
/// word run starting at `f`.
pub proof fn lemma_name_match_at(s: Seq<char>, f: int)
    requires
        0 <= f <= s.len(),
        forall|k: int| 0 <= k < f ==> !is_word_char(s[k]),
        f < s.len() ==> is_word_char(s[f]),
    ensures
        spec_name_match(s) == (if f == s.len() {
            None::<Seq<char>>
        } else {
            Some(s.skip(f).take(word_prefix_len(s.skip(f)) as int))
        }),
    decreases f,
{
    if f == 0 {
        if s.len() > 0 {
            assert(s.skip(0) =~= s);
        }
    } else {
        assert(!is_word_char(s[0]));
        assert forall|k: int| 0 <= k < f - 1 implies !is_word_char(s.drop_first()[k]) by {
            assert(!is_word_char(s[k + 1]));
        }
        lemma_name_match_at(s.drop_first(), f - 1);
        if f < s.len() {
            assert(s.drop_first().skip(f - 1) =~= s.skip(f));
        }
    }
}

/// True when `c` is a word character.
pub fn is_word_char_exec(c: char) -> (r: bool)
    ensures
        r == is_word_char(c),
{
    let u = c as u32;
    (97 <= u && u <= 122) || (65 <= u && u <= 90) || (48 <= u && u <= 57) || c == '_'
}

/// The index just past the maximal run of word characters starting at
/// `start`.
fn word_run_end(s: &str, start: usize) -> (r: usize)
    requires
        start <= s@.len(),
    ensures
        start <= r <= s@.len(),
        r - start == word_prefix_len(s@.skip(start as int)),
{
    let n = s.unicode_len();
    let mut i = start;
    loop
        invariant
            start <= i <= n,
            n == s@.len(),
            forall|k: int| start <= k < i ==> is_word_char(s@[k]),
        ensures
            start <= i <= n,
            forall|k: int| start <= k < i ==> is_word_char(s@[k]),
            i == n || !is_word_char(s@[i as int]),
        decreases n - i,
    {
        if i >= n {
            break;
        }
        let c = s.get_char(i);
        if !is_word_char_exec(c) {
            break;
        }
        i = i + 1;
    }
    proof {
        let t = s@.skip(start as int);
        assert forall|k: int| 0 <= k < i - start implies is_word_char(t[k]) by {
            assert(t[k] == s@[k + start]);
        }
        if i - start < t.len() {
            assert(t[i - start] == s@[i as int]);
        }
        lemma_word_prefix_len_unique(t, i - start);
    }
    i
}

// ---------------------------------------------------------------------------
// Constraint operators
// ---------------------------------------------------------------------------

/// True when `c` can appear in a comparison operator.
pub open spec fn is_op_char(c: char) -> bool {
    c == '<' || c == '=' || c == '>'
}

/// The valid two-character operators; any other two operator characters in
/// a row make the constraint malformed.
pub open spec fn op2_of(c1: char, c2: char) -> Option<CompareOp> {
    if c1 == '<' && c2 == '=' {
        Some(CompareOp::Le)
    } else if c1 == '>' && c2 == '=' {
        Some(CompareOp::Ge)
    } else {
        None
    }
}

/// The operator a single operator character denotes.
pub open spec fn op1_of(c: char) -> CompareOp {
    if c == '<' {
        CompareOp::Lt
    } else if c == '>' {
        CompareOp::Gt
    } else {
        CompareOp::Exact
    }
}

/// True when `c` can appear in a comparison operator.
fn is_op_char_exec(c: char) -> (r: bool)
    ensures
        r == is_op_char(c),
{
    c == '<' || c == '=' || c == '>'
}

/// The valid two-character operators.
fn op2_value(c1: char, c2: char) -> (r: Option<CompareOp>)
    ensures
        r == op2_of(c1, c2),
{
    if c1 == '<' && c2 == '=' {
        Some(CompareOp::Le)
    } else if c1 == '>' && c2 == '=' {
        Some(CompareOp::Ge)
    } else {
        None
    }
}

/// The operator a single operator character denotes.
fn op1_value(c: char) -> (r: CompareOp)
    ensures
        r == op1_of(c),
{
    if c == '<' {
        CompareOp::Lt
    } else if c == '>' {
        CompareOp::Gt
    } else {
        CompareOp::Exact
    }
}

// ---------------------------------------------------------------------------
// Dotted numeric literals
// ---------------------------------------------------------------------------

/// The index just past the maximal digit run starting at `i`.
pub open spec fn digit_end(s: Seq<char>, i: int) -> int {
    i + digit_prefix_len(s.skip(i))
}

/// The index just past the dotted numeric literal starting at `i` (up to
/// three digit components separated by dots; `s[i]` must be a digit).
pub open spec fn lit_end(s: Seq<char>, i: int) -> int {
    let e1 = digit_end(s, i);
    if e1 + 1 < s.len() && s[e1] == '.' && is_digit(s[e1 + 1]) {
        let e2 = digit_end(s, e1 + 1);
        if e2 + 1 < s.len() && s[e2] == '.' && is_digit(s[e2 + 1]) {
            digit_end(s, e2 + 1)
        } else {
            e2
        }
    } else {
        e1
    }
}

/// The version literal starting at `i`, or `None` when one of its decimal
/// components does not fit an unsigned 64-bit integer.
pub open spec fn lit_value_at(s: Seq<char>, i: int) -> Option<ConstraintVersion> {
    let e1 = digit_end(s, i);
    let v1 = dec_val(s.subrange(i, e1));
    if e1 + 1 < s.len() && s[e1] == '.' && is_digit(s[e1 + 1]) {
        let e2 = digit_end(s, e1 + 1);
        let v2 = dec_val(s.subrange(e1 + 1, e2));
        if e2 + 1 < s.len() && s[e2] == '.' && is_digit(s[e2 + 1]) {
            let e3 = digit_end(s, e2 + 1);
            let v3 = dec_val(s.subrange(e2 + 1, e3));
            if v1 <= u64::MAX && v2 <= u64::MAX && v3 <= u64::MAX {
                Some(
                    ConstraintVersion {
                        major: v1 as u64,
                        minor: Some(v2 as u64),
                        patch: Some(v3 as u64),
                    },
                )
            } else {
                None
            }
        } else if v1 <= u64::MAX && v2 <= u64::MAX {
            Some(ConstraintVersion { major: v1 as u64, minor: Some(v2 as u64), patch: None })
        } else {
            None
        }
    } else if v1 <= u64::MAX {
        Some(ConstraintVersion { major: v1 as u64, minor: None, patch: None })
    } else {
        None
    }
}

/// A literal that starts with a digit ends strictly after it starts and no
/// later than the end of the string.
pub proof fn lemma_lit_end_bounds(s: Seq<char>, i: int)
    requires
        0 <= i < s.len(),
        is_digit(s[i]),
    ensures
        i < lit_end(s, i) <= s.len(),
        i < digit_end(s, i) <= s.len(),
{
    lemma_digit_prefix_len(s.skip(i));
    assert(s.skip(i)[0] == s[i]);
    let e1 = digit_end(s, i);
    if e1 + 1 < s.len() && s[e1] == '.' && is_digit(s[e1 + 1]) {
        lemma_digit_prefix_len(s.skip(e1 + 1));
        assert(s.skip(e1 + 1)[0] == s[e1 + 1]);
        let e2 = digit_end(s, e1 + 1);
        if e2 + 1 < s.len() && s[e2] == '.' && is_digit(s[e2 + 1]) {
            lemma_digit_prefix_len(s.skip(e2 + 1));
            assert(s.skip(e2 + 1)[0] == s[e2 + 1]);
        }
    }
}

// ---------------------------------------------------------------------------
// Scanning a line for constraints
// ---------------------------------------------------------------------------

/// The constraints found in `s` from position `i` on, scanned left to
/// right: each occurrence of one or two operator characters immediately
/// followed by a digit starts a constraint whose literal extends as far as
/// the dotted-numeral shape allows.  An invalid operator pair or an
/// oversized component makes the whole scan fail.
pub open spec fn spec_scan_from(s: Seq<char>, i: int) -> Option<Seq<VersionConstraint>>
    decreases s.len() - i,
    when 0 <= i
    via spec_scan_from_decreases
{
    if i >= s.len() {
        Some(seq![])
    } else if is_op_char(s[i]) && i + 2 < s.len() && is_op_char(s[i + 1]) && is_digit(s[i + 2]) {
        match op2_of(s[i], s[i + 1]) {
            None => None,
            Some(op) => match lit_value_at(s, i + 2) {
                None => None,
                Some(cv) => match spec_scan_from(s, lit_end(s, i + 2)) {
                    None => None,
                    Some(rest) => Some(seq![(VersionConstraint { op, version: cv })] + rest),
                },
            },
        }
    } else if is_op_char(s[i]) && i + 1 < s.len() && is_digit(s[i + 1]) {
        let op = op1_of(s[i]);
        match lit_value_at(s, i + 1) {
            None => None,
            Some(cv) => match spec_scan_from(s, lit_end(s, i + 1)) {
                None => None,
                Some(rest) => Some(seq![(VersionConstraint { op, version: cv })] + rest),
            },
        }
    } else {
        spec_scan_from(s, i + 1)
    }
}

#[via_fn]
proof fn spec_scan_from_decreases(s: Seq<char>, i: int) {
    if i < s.len() {
        if is_op_char(s[i]) && i + 2 < s.len() && is_op_char(s[i + 1]) && is_digit(s[i + 2]) {
            lemma_lit_end_bounds(s, i + 2);
        } else if is_op_char(s[i]) && i + 1 < s.len() && is_digit(s[i + 1]) {
            lemma_lit_end_bounds(s, i + 1);
        }
    }
}

/// The decimal value of the digit run `s[a..b]`, or `None` when it does
/// not fit an unsigned 64-bit integer.
fn dec_group_u64(s: &str, a: usize, b: usize) -> (r: Option<u64>)
    requires
        a <= b <= s@.len(),
        forall|i: int| a <= i < b ==> is_digit(s@[i]),
    ensures
        match r {
            Some(v) => dec_val(s@.subrange(a as int, b as int)) <= u64::MAX && v == dec_val(
                s@.subrange(a as int, b as int),
            ),
            None => dec_val(s@.subrange(a as int, b as int)) > u64::MAX,
        },
{
    let mut i = a;
    let mut val: u64 = 0;
    let mut over = false;
    while i < b
        invariant
            a <= i <= b <= s@.len(),
            forall|k: int| a <= k < b ==> is_digit(s@[k]),
            !over ==> val == dec_val(s@.subrange(a as int, i as int)),
            over ==> dec_val(s@.subrange(a as int, i as int)) > u64::MAX,
        decreases b - i,
    {
        let c = s.get_char(i);
        let d = (c as u32 - 48) as u64;
        proof {
            let pre = s@.subrange(a as int, i as int);
            let ext = s@.subrange(a as int, i + 1);
            assert(ext.drop_last() =~= pre);
            assert(ext.last() == s@[i as int]);
            assert(dec_val(ext) == dec_val(pre) * 10 + crate::version::digit_val(s@[i as int]));
        }
        if over {
            proof {
                let pre = s@.subrange(a as int, i as int);
                assert(dec_val(pre) * 10 >= dec_val(pre));
            }
        } else {
            let w = (val as u128) * 10 + (d as u128);
            if w > u64::MAX as u128 {
                over = true;
                val = 0;
            } else {
                val = w as u64;
            }
        }
        i = i + 1;
    }
    if over {
        None
    } else {
        Some(val)
    }
}

/// Reads the dotted numeric literal starting at `j`, returning the index
/// just past it and its value.
fn parse_lit(s: &str, j: usize) -> (r: (usize, Option<ConstraintVersion>))
    requires
        j < s@.len(),
        is_digit(s@[j as int]),
    ensures
        r.0 == lit_end(s@, j as int),
        j < r.0 <= s@.len(),
        r.1 == lit_value_at(s@, j as int),
{
    proof {
        lemma_lit_end_bounds(s@, j as int);
    }
    let n = s.unicode_len();
    let e1 = crate::version::digit_run_end(s, j);
    let v1 = dec_group_u64(s, j, e1);
    if n - e1 >= 2 && s.get_char(e1) == '.' && is_digit_char(s.get_char(e1 + 1)) {
        proof {
            lemma_lit_end_bounds(s@, e1 + 1);
        }
        let e2 = crate::version::digit_run_end(s, e1 + 1);
        let v2 = dec_group_u64(s, e1 + 1, e2);
        if n - e2 >= 2 && s.get_char(e2) == '.' && is_digit_char(s.get_char(e2 + 1)) {
            proof {
                lemma_lit_end_bounds(s@, e2 + 1);
            }
            let e3 = crate::version::digit_run_end(s, e2 + 1);
            let v3 = dec_group_u64(s, e2 + 1, e3);
            match (v1, v2, v3) {
                (Some(a), Some(b), Some(c)) => (
                    e3,
                    Some(ConstraintVersion { major: a, minor: Some(b), patch: Some(c) }),
                ),
                _ => (e3, None),
            }
        } else {
            match (v1, v2) {
                (Some(a), Some(b)) => (
                    e2,
                    Some(ConstraintVersion { major: a, minor: Some(b), patch: None }),
                ),
                _ => (e2, None),
            }
        }
    } else {
        match v1 {
            Some(a) => (e1, Some(ConstraintVersion { major: a, minor: None, patch: None })),
            None => (e1, None),
        }
    }
}

/// Scans the whole line for constraints, left to right.
fn scan_constraints(s: &str) -> (r: Result<Vec<VersionConstraint>, ()>)
    ensures
        match r {
            Ok(v) => spec_scan_from(s@, 0) == Some(v@),
            Err(()) => spec_scan_from(s@, 0) is None,
        },
{
    let n = s.unicode_len();
    let mut acc: Vec<VersionConstraint> = Vec::new();
    let mut i: usize = 0;
    while i < n
        invariant
            0 <= i <= n,
            n == s@.len(),
            spec_scan_from(s@, 0) == (match spec_scan_from(s@, i as int) {
                None => None::<Seq<VersionConstraint>>,
                Some(rest) => Some(acc@ + rest),
            }),
        decreases n - i,
    {
        let c = s.get_char(i);
        if is_op_char_exec(c) && n - i >= 3 && is_op_char_exec(s.get_char(i + 1)) && is_digit_char(
            s.get_char(i + 2),
        ) {
            let op = match op2_value(c, s.get_char(i + 1)) {
                Some(op) => op,
                None => {
                    return Err(());
                },
            };
            let (e, litv) = parse_lit(s, i + 2);
            let cv = match litv {
                Some(cv) => cv,
                None => {
                    return Err(());
                },
            };
            let ghost old_acc = acc@;
            acc.push(VersionConstraint { op, version: cv });
            proof {
                assert forall|rest: Seq<VersionConstraint>|
                    old_acc + (seq![(VersionConstraint { op, version: cv })] + rest) =~= acc@
                        + rest by {
                }
                assert(spec_scan_from(s@, 0) == (match spec_scan_from(s@, e as int) {
                    None => None::<Seq<VersionConstraint>>,
                    Some(rest) => Some(acc@ + rest),
                }));
            }
            i = e;
        } else if is_op_char_exec(c) && n - i >= 2 && is_digit_char(s.get_char(i + 1)) {
            let op = op1_value(c);
            let (e, litv) = parse_lit(s, i + 1);
            let cv = match litv {
                Some(cv) => cv,
                None => {
                    return Err(());
                },
            };
            let ghost old_acc = acc@;
            acc.push(VersionConstraint { op, version: cv });
            proof {
                assert forall|rest: Seq<VersionConstraint>|
                    old_acc + (seq![(VersionConstraint { op, version: cv })] + rest) =~= acc@
                        + rest by {
                }
                assert(spec_scan_from(s@, 0) == (match spec_scan_from(s@, e as int) {
                    None => None::<Seq<VersionConstraint>>,
                    Some(rest) => Some(acc@ + rest),
                }));
            }
            i = e;
        } else {
            i = i + 1;
        }
    }
    proof {
        assert(acc@ + Seq::<VersionConstraint>::empty() =~= acc@);
    }
    Ok(acc)
}

// ---------------------------------------------------------------------------
// Parsing one requirement line
// ---------------------------------------------------------------------------

/// What one requirement line parses to: the first word run is the package
/// name, and every operator-digit occurrence contributes one constraint.
pub open spec fn spec_parse_line(s: Seq<char>) -> Result<
    (Seq<char>, Seq<VersionConstraint>),
    LineError,
> {
    match spec_name_match(s) {
        None => Err(LineError::NoName),
        Some(name) => match spec_scan_from(s, 0) {
            None => Err(LineError::BadConstraint),
            Some(cs) => Ok((name, cs)),
        },
    }
}

impl PackageVersionReq {
    /// A requirement from a name and its constraints.
    pub fn new(package_name: String, version_reqs: Vec<VersionConstraint>) -> (r: PackageVersionReq)
        ensures
            r.package_name == package_name,
            r.version_reqs == version_reqs,
    {
        PackageVersionReq { package_name, version_reqs }
    }

    /// Parses one line of legacy requirement text: the first run of word
    /// characters is the package name (its absence is an error), and every
    /// comparison operator followed by a dotted numeral is one constraint,
    /// collected left to right.  A malformed constraint substring fails the
    /// whole line.
    pub fn parse_requires_txt_line(line: &str) -> (r: Result<PackageVersionReq, Error>)
        ensures
            match spec_parse_line(line@) {
                Ok(m) => r matches Ok(req) && req.package_name@ == m.0 && req.version_reqs@ == m.1,
                Err(LineError::NoName) => r matches Err(e) && (e.cause is None) && (
                e.kind matches ErrorKind::PackageNameRegexFailed(l) && l@ == line@),
                Err(LineError::BadConstraint) => r matches Err(e) && (e.cause is None) && (
                e.kind matches ErrorKind::Deserialization(l) && l@ == line@),
            },
    {
        let n = line.unicode_len();
        let mut f: usize = 0;
        loop
            invariant
                0 <= f <= n,
                n == line@.len(),
                forall|k: int| 0 <= k < f ==> !is_word_char(line@[k]),
            ensures
                0 <= f <= n,
                forall|k: int| 0 <= k < f ==> !is_word_char(line@[k]),
                f == n || is_word_char(line@[f as int]),
            decreases n - f,
        {
            if f >= n {
                break;
            }
            if is_word_char_exec(line.get_char(f)) {
                break;
            }
            f = f + 1;
        }
        proof {
            lemma_name_match_at(line@, f as int);
        }
        if f == n {
            return Err(Error::new(ErrorKind::PackageNameRegexFailed(line.to_owned())));
        }
        let e = word_run_end(line, f);
        let name = line.substring_char(f, e).to_owned();
        proof {
            assert(line@.subrange(f as int, e as int) =~= line@.skip(f as int).take(
                word_prefix_len(line@.skip(f as int)) as int,
            ));
        }
        match scan_constraints(line) {
            Ok(cs) => Ok(PackageVersionReq { package_name: name, version_reqs: cs }),
            Err(()) => Err(Error::new(ErrorKind::Deserialization(line.to_owned()))),
        }
    }
}

// ---------------------------------------------------------------------------
// Parsing many requirement lines
// ---------------------------------------------------------------------------

/// Parses a sequence of requirement lines in order; the first failing line
/// fails the whole parse.
pub open spec fn spec_parse_lines(lines: Seq<Seq<char>>) -> Result<
    Seq<(Seq<char>, Seq<VersionConstraint>)>,
    (Seq<char>, LineError),
>
    decreases lines.len(),
{
    if lines.len() == 0 {
        Ok(seq![])
    } else {
        match spec_parse_line(lines[0]) {
            Err(e) => Err((lines[0], e)),
            Ok(m) => match spec_parse_lines(lines.drop_first()) {
                Err(e) => Err(e),
                Ok(rest) => Ok(seq![m] + rest),
            },
        }
    }
}

// ---------------------------------------------------------------------------
// Rendering requirements
// ---------------------------------------------------------------------------

/// The characters of a comparison operator.
pub open spec fn spec_op_str(op: CompareOp) -> Seq<char> {
    match op {
        CompareOp::Lt => seq!['<'],
        CompareOp::Le => seq!['<', '='],
        CompareOp::Gt => seq!['>'],
        CompareOp::Ge => seq!['>', '='],
        CompareOp::Exact => seq!['='],
    }
}

/// The characters of a version literal: the components that were written,
/// dotted.
pub open spec fn spec_cversion_str(v: ConstraintVersion) -> Seq<char> {
    dec_str(v.major as nat) + (match v.minor {
        None => seq![],
        Some(mn) => seq!['.'] + dec_str(mn as nat) + (match v.patch {
            None => seq![],
            Some(p) => seq!['.'] + dec_str(p as nat),
        }),
    })
}

/// The characters of one constraint: operator, space, version literal.
pub open spec fn spec_constraint_str(c: VersionConstraint) -> Seq<char> {
    spec_op_str(c.op) + seq![' '] + spec_cversion_str(c.version)
}

/// The characters `", <constraint>"` for each further constraint.
pub open spec fn spec_join_tail(cs: Seq<VersionConstraint>) -> Seq<char>
    decreases cs.len(),
{
    if cs.len() == 0 {
        seq![]
    } else {
        seq![',', ' '] + spec_constraint_str(cs[0]) + spec_join_tail(cs.drop_first())
    }
}

/// The constraints joined by `", "`, in order.
pub open spec fn spec_join_constraints(cs: Seq<VersionConstraint>) -> Seq<char> {
    if cs.len() == 0 {
        seq![]
    } else {
        spec_constraint_str(cs[0]) + spec_join_tail(cs.drop_first())
    }
}

/// The rendering of a requirement: `<name> (<constraint>, ...)`.
pub open spec fn spec_req_str(name: Seq<char>, cs: Seq<VersionConstraint>) -> Seq<char> {
    name + seq![' ', '('] + spec_join_constraints(cs) + seq![')']
}

/// Appending a constraint extends the joined tail by `", "` and its
/// rendering.
proof fn lemma_join_tail_push(cs: Seq<VersionConstraint>, x: VersionConstraint)
    ensures
        spec_join_tail(cs.push(x)) == spec_join_tail(cs) + seq![',', ' ']
            + spec_constraint_str(x),
    decreases cs.len(),
{
    if cs.len() == 0 {
        assert(cs.push(x)[0] == x);
        assert(cs.push(x).drop_first() =~= Seq::<VersionConstraint>::empty());
        assert(spec_join_tail(Seq::<VersionConstraint>::empty()) == Seq::<char>::empty());
        assert(spec_join_tail(cs.push(x)) =~= spec_join_tail(cs) + seq![',', ' ']
            + spec_constraint_str(x));
    } else {
        assert(cs.push(x)[0] == cs[0]);
        assert(cs.push(x).drop_first() =~= cs.drop_first().push(x));
        lemma_join_tail_push(cs.drop_first(), x);
        assert(spec_join_tail(cs.push(x)) =~= spec_join_tail(cs) + seq![',', ' ']
            + spec_constraint_str(x));
    }
}

/// The operator's characters.
fn op_str(op: CompareOp) -> (r: &'static str)
    ensures
        r@ == spec_op_str(op),
{
    match op {
        CompareOp::Lt => {
            proof { reveal_strlit("<"); }
            assert("<"@ =~= seq!['<']);
            "<"
        },
        CompareOp::Le => {
            proof { reveal_strlit("<="); }
            assert("<="@ =~= seq!['<', '=']);
            "<="
        },
        CompareOp::Gt => {
            proof { reveal_strlit(">"); }
            assert(">"@ =~= seq!['>']);
            ">"
        },
        CompareOp::Ge => {
            proof { reveal_strlit(">="); }
            assert(">="@ =~= seq!['>', '=']);
            ">="
        },
        CompareOp::Exact => {
            proof { reveal_strlit("="); }
            assert("="@ =~= seq!['=']);
            "="
        },
    }
}

/// Renders one constraint as `<op> <version>`.
fn constraint_to_string(c: &VersionConstraint) -> (r: String)
    ensures
        r@ == spec_constraint_str(*c),
{
    let mut s = String::from_str(op_str(c.op));
    proof { reveal_strlit(" "); }
    proof { reveal_strlit("."); }
    s.append(" ");
    s.append(u64_to_string(c.version.major).as_str());
    proof {
        assert(" "@ =~= seq![' ']);
        assert("."@ =~= seq!['.']);
    }
    match c.version.minor {
        None => {
            proof {
                assert(s@ =~= spec_constraint_str(*c));
            }
            s
        },
        Some(mn) => {
            s.append(".");
            s.append(u64_to_string(mn).as_str());
            match c.version.patch {
                None => {
                    proof {
                        assert(s@ =~= spec_constraint_str(*c));
                    }
                    s
                },
                Some(p) => {
                    s.append(".");
                    s.append(u64_to_string(p).as_str());
                    proof {
                        assert(s@ =~= spec_constraint_str(*c));
                    }
                    s
                },
            }
        },
    }
}

impl PackageVersionReq {
    /// Renders this requirement as `<name> (<constraint>, <constraint>,
    /// ...)`, the constraints joined by `", "` in the order they were
    /// parsed.
    pub fn describe(&self) -> (r: String)
        ensures
            r@ == spec_req_str(self.package_name@, self.version_reqs@),
    {
        let mut s = self.package_name.clone();
        proof { reveal_strlit(" ("); }
        proof { reveal_strlit(", "); }
        proof { reveal_strlit(")"); }
        s.append(" (");
        let n = self.version_reqs.len();
        let mut k: usize = 0;
        let mut join = String::new();
        while k < n
            invariant
                0 <= k <= n,
                n == self.version_reqs@.len(),
                join@ == spec_join_constraints(self.version_reqs@.take(k as int)),
            decreases n - k,
        {
            let ghost pre = self.version_reqs@.take(k as int);
            proof { reveal_strlit(", "); }
            let part = constraint_to_string(&self.version_reqs[k]);
            if k == 0 {
                join.append(part.as_str());
                proof {
                    assert(self.version_reqs@.take(1)[0] == self.version_reqs@[0]);
                    assert(self.version_reqs@.take(1).drop_first() =~= Seq::<
                        VersionConstraint,
                    >::empty());
                    assert(join@ =~= spec_join_constraints(self.version_reqs@.take(1)));
                }
            } else {
                join.append(", ");
                join.append(part.as_str());
                proof {
                    assert(", "@ =~= seq![',', ' ']);
                    let post = self.version_reqs@.take(k + 1);
                    assert(post =~= pre.push(self.version_reqs@[k as int]));
                    assert(pre[0] == post[0]);
                    assert(pre.drop_first().push(self.version_reqs@[k as int]) =~= post.drop_first());
                    lemma_join_tail_push(pre.drop_first(), self.version_reqs@[k as int]);
                    assert(join@ =~= spec_join_constraints(post));
                }
            }
            k = k + 1;
        }
        s.append(join.as_str());
        s.append(")");
        proof {
            reveal_strlit(" (");
            reveal_strlit(")");
            assert(" ("@ =~= seq![' ', '(']);
            assert(")"@ =~= seq![')']);
            assert(self.version_reqs@.take(n as int) =~= self.version_reqs@);
            assert(s@ =~= spec_req_str(self.package_name@, self.version_reqs@));
        }
        s
    }
}

} // verus!
