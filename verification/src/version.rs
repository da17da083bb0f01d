//! Runtime-version parsing and comparison.
//!
//! A [`JavaVersion`] is a `(major, minor, build)` triple parsed from a
//! dotted version string with exactly three segments.  Ordering and
//! equality are driven solely by `(major, minor)`; the build label is
//! informational only.

use vstd::prelude::*;
use vstd::string::*;

verus! {

/// Why a version string could not be parsed.
#[derive(Clone, Copy, Debug, PartialEq, Eq, Structural)]
pub enum VersionFormatError {
    /// Fewer than three dot-separated segments.
    NotEnoughParts,
    /// More than three dot-separated segments.
    TooManyParts,
    /// The major or minor segment is not a non-negative integer that
    /// fits the field.
    InvalidNumber,
}

/// A runtime's self-reported version: major and minor number plus an
/// opaque build label.
#[derive(Debug)]
pub struct JavaVersion {
    pub major: u16,
    pub minor: u16,
    pub build: String,
}

/// The mathematical value of a [`JavaVersion`]: the two numbers and the
/// build label as a sequence of characters.
pub struct JavaVersionView {
    pub major: u16,
    pub minor: u16,
    pub build: Seq<char>,
}

impl View for JavaVersion {
    type V = JavaVersionView;

    open spec fn view(&self) -> JavaVersionView {
        JavaVersionView { major: self.major, minor: self.minor, build: self.build@ }
    }
}

pub open spec fn is_digit(c: char) -> bool {
    '0' <= c && c <= '9'
}

/// The numeric value of a decimal digit character.
pub open spec fn digit_val(c: char) -> int {
    c as int - '0' as int
}

pub open spec fn all_digits(s: Seq<char>) -> bool {
    forall|i: int| 0 <= i < s.len() ==> is_digit(#[trigger] s[i])
}

/// The value of a sequence of decimal digit characters, most significant
/// first.
pub open spec fn seq_to_int(s: Seq<char>) -> int
    decreases s.len(),
{
    if s.len() == 0 {
        0
    } else {
        seq_to_int(s.drop_last()) * 10 + digit_val(s.last())
    }
}

/// A segment parses as a number exactly when it is a non-empty run of
/// decimal digits whose value fits in the version field.
pub open spec fn valid_number(s: Seq<char>) -> bool {
    s.len() > 0 && all_digits(s) && seq_to_int(s) <= u16::MAX
}

/// The segments of `s` split on `'.'`, as Rust's `split('.')` produces
/// them: always at least one segment, with empty segments kept.
pub open spec fn split_dots(s: Seq<char>) -> Seq<Seq<char>>
    decreases s.len(),
{
    if s.len() == 0 {
        seq![Seq::<char>::empty()]
    } else if s[0] == '.' {
        seq![Seq::<char>::empty()] + split_dots(s.skip(1))
    } else {
        let rest = split_dots(s.skip(1));
        seq![seq![s[0]] + rest[0]] + rest.skip(1)
    }
}

/// How many `'.'` characters `s` holds.
pub open spec fn dot_count(s: Seq<char>) -> nat
    decreases s.len(),
{
    if s.len() == 0 {
        0
    } else {
        (if s[0] == '.' {
            1nat
        } else {
            0nat
        }) + dot_count(s.skip(1))
    }
}

/// What parsing a version string yields: exactly three dot-separated
/// segments, the first two non-negative integers, the third an opaque
/// build label.
pub open spec fn spec_parse(s: Seq<char>) -> Result<JavaVersionView, VersionFormatError> {
    let parts = split_dots(s);
    if parts.len() < 3 {
        Err(VersionFormatError::NotEnoughParts)
    } else if parts.len() > 3 {
        Err(VersionFormatError::TooManyParts)
    } else if !valid_number(parts[0]) || !valid_number(parts[1]) {
        Err(VersionFormatError::InvalidNumber)
    } else {
        Ok(
            JavaVersionView {
                major: seq_to_int(parts[0]) as u16,
                minor: seq_to_int(parts[1]) as u16,
                build: parts[2],
            },
        )
    }
}

proof fn lemma_seq_to_int_nonneg(s: Seq<char>)
    requires
        all_digits(s),
    ensures
        seq_to_int(s) >= 0,
    decreases s.len(),
{
    if s.len() > 0 {
        assert(all_digits(s.drop_last()));
        lemma_seq_to_int_nonneg(s.drop_last());
    }
}

proof fn lemma_seq_to_int_push(t: Seq<char>, c: char)
    ensures
        seq_to_int(t.push(c)) == seq_to_int(t) * 10 + digit_val(c),
{
    assert(t.push(c).drop_last() =~= t);
    assert(t.push(c).last() == c);
}

/// A digit string is worth at least any of its prefixes.
proof fn lemma_seq_to_int_prefix(s: Seq<char>, m: int)
    requires
        all_digits(s),
        0 <= m <= s.len(),
    ensures
        seq_to_int(s.take(m)) <= seq_to_int(s),
    decreases s.len(),
{
    if m < s.len() {
        assert(all_digits(s.drop_last()));
        assert(s.take(m) =~= s.drop_last().take(m));
        lemma_seq_to_int_prefix(s.drop_last(), m);
        lemma_seq_to_int_nonneg(s.drop_last());
    } else {
        assert(s.take(m) =~= s);
    }
}

proof fn lemma_dot_count_concat(a: Seq<char>, b: Seq<char>)
    ensures
        dot_count(a + b) == dot_count(a) + dot_count(b),
    decreases a.len(),
{
    if a.len() == 0 {
        assert(a + b =~= b);
    } else {
        assert((a + b).skip(1) =~= a.skip(1) + b);
        lemma_dot_count_concat(a.skip(1), b);
    }
}

proof fn lemma_dot_count_take_le(s: Seq<char>, i: int)
    requires
        0 <= i <= s.len(),
    ensures
        dot_count(s.take(i)) <= dot_count(s),
{
    assert(s =~= s.take(i) + s.skip(i));
    lemma_dot_count_concat(s.take(i), s.skip(i));
}

proof fn lemma_dot_count_snoc(s: Seq<char>, i: int)
    requires
        0 <= i < s.len(),
    ensures
        dot_count(s.take(i + 1)) == dot_count(s.take(i)) + (if s[i] == '.' {
            1nat
        } else {
            0nat
        }),
{
    assert(s.take(i + 1) =~= s.take(i) + seq![s[i]]);
    lemma_dot_count_concat(s.take(i), seq![s[i]]);
    assert(seq![s[i]].skip(1) =~= Seq::<char>::empty());
    assert(dot_count(Seq::<char>::empty()) == 0);
    assert(dot_count(seq![s[i]]) == dot_count(seq![s[i]].skip(1)) + (if s[i] == '.' {
        1nat
    } else {
        0nat
    }));
}

proof fn lemma_split_dots_len(s: Seq<char>)
    ensures
        split_dots(s).len() == dot_count(s) + 1,
    decreases s.len(),
{
    if s.len() > 0 {
        lemma_split_dots_len(s.skip(1));
    }
}

proof fn lemma_split_no_dot(s: Seq<char>)
    requires
        forall|i: int| 0 <= i < s.len() ==> s[i] != '.',
    ensures
        split_dots(s) == seq![s],
    decreases s.len(),
{
    if s.len() == 0 {
        assert(split_dots(s) =~~= seq![s]);
    } else {
        lemma_split_no_dot(s.skip(1));
        assert(seq![s[0]] + s.skip(1) =~= s);
        assert(split_dots(s) =~~= seq![s]);
    }
}

/// Splitting at the first dot peels off everything before it as the
/// first segment.
proof fn lemma_split_at_first_dot(s: Seq<char>, i: int)
    requires
        0 <= i < s.len(),
        s[i] == '.',
        forall|k: int| 0 <= k < i ==> s[k] != '.',
    ensures
        split_dots(s) == seq![s.take(i)] + split_dots(s.skip(i + 1)),
    decreases i,
{
    if i == 0 {
        assert(s.take(0) =~= Seq::<char>::empty());
        assert(split_dots(s) =~~= seq![s.take(0)] + split_dots(s.skip(1)));
    } else {
        let t = s.skip(1);
        assert(t[i - 1] == '.');
        assert(forall|k: int| 0 <= k < i - 1 ==> t[k] != '.');
        lemma_split_at_first_dot(t, i - 1);
        let rest = split_dots(t);
        assert(rest == seq![t.take(i - 1)] + split_dots(t.skip(i)));
        assert(rest[0] == t.take(i - 1));
        assert(rest.skip(1) =~= split_dots(t.skip(i)));
        assert(t.skip(i) =~= s.skip(i + 1));
        assert(seq![s[0]] + t.take(i - 1) =~= s.take(i));
        assert(split_dots(s) =~~= seq![s.take(i)] + split_dots(s.skip(i + 1)));
    }
}

/// The decimal digit character for a value below ten.
pub open spec fn digit_char(d: int) -> char {
    if d == 0 {
        '0'
    } else if d == 1 {
        '1'
    } else if d == 2 {
        '2'
    } else if d == 3 {
        '3'
    } else if d == 4 {
        '4'
    } else if d == 5 {
        '5'
    } else if d == 6 {
        '6'
    } else if d == 7 {
        '7'
    } else if d == 8 {
        '8'
    } else {
        '9'
    }
}

/// The decimal representation of a non-negative number, most significant
/// digit first, without leading zeros.
pub open spec fn spec_digits(n: int) -> Seq<char>
    decreases n,
{
    if n < 10 {
        seq![digit_char(n)]
    } else {
        spec_digits(n / 10) + seq![digit_char(n % 10)]
    }
}

/// How a version is written out: `"{major}.{minor}.{build}"`.
pub open spec fn spec_format(major: u16, minor: u16, build: Seq<char>) -> Seq<char> {
    spec_digits(major as int) + seq!['.'] + spec_digits(minor as int) + seq!['.'] + build
}

/// The decimal representation is a valid number segment and is worth
/// exactly the number it was made from.
pub proof fn lemma_digits_valid(n: int)
    requires
        0 <= n <= u16::MAX,
    ensures
        valid_number(spec_digits(n)),
        seq_to_int(spec_digits(n)) == n,
        forall|i: int| 0 <= i < spec_digits(n).len() ==> #[trigger] spec_digits(n)[i] != '.',
    decreases n,
{
    if n < 10 {
        let w = seq![digit_char(n)];
        assert(w.drop_last() =~= Seq::<char>::empty());
        assert(w.last() == digit_char(n));
        assert(digit_val(digit_char(n)) == n);
        assert(seq_to_int(Seq::<char>::empty()) == 0);
        assert(seq_to_int(w) == seq_to_int(w.drop_last()) * 10 + digit_val(w.last()));
        assert(is_digit(digit_char(n)));
        assert(all_digits(w));
    } else {
        lemma_digits_valid(n / 10);
        let d = spec_digits(n / 10);
        let w = seq![digit_char(n % 10)];
        assert(spec_digits(n) == d + w);
        assert((d + w).drop_last() =~= d);
        assert((d + w).last() == digit_char(n % 10));
        assert(digit_val(digit_char(n % 10)) == n % 10);
        assert(seq_to_int(d + w) == seq_to_int((d + w).drop_last()) * 10 + digit_val(
            (d + w).last(),
        ));
        assert(seq_to_int(d + w) == (n / 10) * 10 + n % 10);
        assert((n / 10) * 10 + n % 10 == n) by (nonlinear_arith);
        assert(is_digit(digit_char(n % 10)));
        assert(forall|i: int| 0 <= i < (d + w).len() ==> is_digit(#[trigger] (d + w)[i]));
    }
}

fn digit_str(d: u16) -> (r: &'static str)
    requires
        d < 10,
    ensures
        r@ == seq![digit_char(d as int)],
{
    proof {
        reveal_strlit("0");
        reveal_strlit("1");
        reveal_strlit("2");
        reveal_strlit("3");
        reveal_strlit("4");
        reveal_strlit("5");
        reveal_strlit("6");
        reveal_strlit("7");
        reveal_strlit("8");
        reveal_strlit("9");
    }
    let r = match d {
        0 => "0",
        1 => "1",
        2 => "2",
        3 => "3",
        4 => "4",
        5 => "5",
        6 => "6",
        7 => "7",
        8 => "8",
        _ => "9",
    };
    proof {
        assert(r@ =~= seq![digit_char(d as int)]);
    }
    r
}

/// Writes a number in decimal, matching [`spec_digits`].
pub fn u16_to_string(n: u16) -> (r: String)
    ensures
        r@ == spec_digits(n as int),
    decreases n,
{
    if n < 10 {
        String::from_str(digit_str(n))
    } else {
        let mut prefix = u16_to_string(n / 10);
        prefix.append(digit_str(n % 10));
        prefix
    }
}

/// Versions are ordered lexicographically by major then minor.
pub open spec fn version_le(a: JavaVersionView, b: JavaVersionView) -> bool {
    a.major < b.major || (a.major == b.major && a.minor <= b.minor)
}

/// Versions are equal exactly when major and minor agree; the build
/// label never takes part.
pub open spec fn version_eq(a: JavaVersionView, b: JavaVersionView) -> bool {
    a.major == b.major && a.minor == b.minor
}

impl PartialEq for JavaVersion {
    fn eq(&self, other: &JavaVersion) -> (r: bool) {
        self.major == other.major && self.minor == other.minor
    }
}

impl Eq for JavaVersion {

}

impl vstd::std_specs::cmp::PartialEqSpecImpl for JavaVersion {
    open spec fn obeys_eq_spec() -> bool {
        true
    }

    open spec fn eq_spec(&self, other: &JavaVersion) -> bool {
        version_eq(self@, other@)
    }
}

impl vstd::std_specs::cmp::PartialOrdSpecImpl for JavaVersion {
    open spec fn obeys_partial_cmp_spec() -> bool {
        true
    }

    open spec fn partial_cmp_spec(&self, other: &JavaVersion) -> Option<core::cmp::Ordering> {
        if self@.major < other@.major {
            Some(core::cmp::Ordering::Less)
        } else if self@.major > other@.major {
            Some(core::cmp::Ordering::Greater)
        } else if self@.minor < other@.minor {
            Some(core::cmp::Ordering::Less)
        } else if self@.minor > other@.minor {
            Some(core::cmp::Ordering::Greater)
        } else {
            Some(core::cmp::Ordering::Equal)
        }
    }
}

impl PartialOrd for JavaVersion {
    fn partial_cmp(&self, other: &JavaVersion) -> (r: Option<core::cmp::Ordering>) {
        if self.major < other.major {
            Some(core::cmp::Ordering::Less)
        } else if self.major > other.major {
            Some(core::cmp::Ordering::Greater)
        } else if self.minor < other.minor {
            Some(core::cmp::Ordering::Less)
        } else if self.minor > other.minor {
            Some(core::cmp::Ordering::Greater)
        } else {
            Some(core::cmp::Ordering::Equal)
        }
    }
}

/// Law: the version order is a total order driven solely by
/// `(major, minor)`: it is reflexive, antisymmetric up to version
/// equality, transitive and total, and two versions are equal exactly
/// when major and minor both match, whatever their build labels.
pub proof fn lemma_version_order_total(a: JavaVersionView, b: JavaVersionView, c: JavaVersionView)
    ensures
        version_le(a, a),
        (version_le(a, b) && version_le(b, a)) ==> version_eq(a, b),
        (version_le(a, b) && version_le(b, c)) ==> version_le(a, c),
        version_le(a, b) || version_le(b, a),
        version_eq(a, b) == (a.major == b.major && a.minor == b.minor),
{
}

/// Law: formatting any version as `"{major}.{minor}.{build}"` with a
/// dot-free build label and parsing the result back yields the same
/// version, field for field.
pub proof fn lemma_format_parse_round_trip(major: u16, minor: u16, build: Seq<char>)
    requires
        forall|i: int| 0 <= i < build.len() ==> build[i] != '.',
    ensures
        spec_parse(spec_format(major, minor, build)) == Ok::<JavaVersionView, VersionFormatError>(
            JavaVersionView { major, minor, build },
        ),
{
    let a = spec_digits(major as int);
    let b = spec_digits(minor as int);
    let s = spec_format(major, minor, build);
    lemma_digits_valid(major as int);
    lemma_digits_valid(minor as int);
    let i = a.len() as int;
    assert(s[i] == '.');
    assert(forall|k: int| 0 <= k < i ==> s[k] == a[k] && #[trigger] s[k] != '.');
    lemma_split_at_first_dot(s, i);
    assert(s.take(i) =~= a);
    let t = s.skip(i + 1);
    assert(t =~= b + seq!['.'] + build);
    let j = b.len() as int;
    assert(t[j] == '.');
    assert(forall|k: int| 0 <= k < j ==> t[k] == b[k] && #[trigger] t[k] != '.');
    lemma_split_at_first_dot(t, j);
    assert(t.take(j) =~= b);
    assert(t.skip(j + 1) =~= build);
    lemma_split_no_dot(build);
    assert(split_dots(s) =~~= seq![a, b, build]);
}

/// Parses a run of decimal digits spanning the character positions
/// `[from, to)` of `s`; `None` exactly when that span is not a valid
/// number.
fn parse_number(s: &str, from: usize, to: usize) -> (r: Option<u16>)
    requires
        from <= to <= s@.len(),
    ensures
        r is Some <==> valid_number(s@.subrange(from as int, to as int)),
        r matches Some(v) ==> v == seq_to_int(s@.subrange(from as int, to as int)),
{
    let ghost seg = s@.subrange(from as int, to as int);
    if from == to {
        return None;
    }
    let mut acc: u32 = 0;
    let mut j: usize = from;
    while j < to
        invariant
            from <= j <= to <= s@.len(),
            seg == s@.subrange(from as int, to as int),
            acc == seq_to_int(seg.take(j - from)),
            acc <= u16::MAX,
            all_digits(seg.take(j - from)),
        decreases to - j,
    {
        let c = s.get_char(j);
        assert(c == seg[j - from]);
        if !(c >= '0' && c <= '9') {
            assert(!all_digits(seg)) by {
                assert(!is_digit(seg[j - from]));
            }
            return None;
        }
        let d: u32 = (c as u32) - 48;
        assert(d == digit_val(c));
        let next: u32 = acc * 10 + d;
        proof {
            lemma_seq_to_int_push(seg.take(j - from), c);
            assert(seg.take(j - from).push(c) =~= seg.take(j - from + 1));
        }
        if next > u16::MAX as u32 {
            assert(!valid_number(seg)) by {
                if all_digits(seg) {
                    lemma_seq_to_int_prefix(seg, j - from + 1);
                }
            }
            return None;
        }
        acc = next;
        j = j + 1;
    }
    assert(seg.take(to - from) =~= seg);
    Some(acc as u16)
}

impl JavaVersion {
    /// A version with the given major and minor number and the default
    /// build label.
    pub fn new(major: u16, minor: u16) -> (v: JavaVersion)
        ensures
            v@.major == major,
            v@.minor == minor,
    {
        JavaVersion { major, minor, build: String::from_str("0") }
    }

    /// Writes the version out as `"{major}.{minor}.{build}"`, the shape
    /// that [`JavaVersion::parse`] accepts.
    pub fn to_full_string(&self) -> (r: String)
        ensures
            r@ == spec_format(self@.major, self@.minor, self@.build),
    {
        proof {
            reveal_strlit(".");
        }
        let mut out = u16_to_string(self.major);
        out.append(".");
        let minor_s = u16_to_string(self.minor);
        out.append(minor_s.as_str());
        out.append(".");
        out.append(self.build.as_str());
        proof {
            assert((".")@ =~= seq!['.']);
        }
        out
    }

    /// Writes only the ordered part of the version, `"{major}.{minor}"`.
    pub fn to_version_string(&self) -> (r: String)
        ensures
            r@ == spec_digits(self@.major as int) + seq!['.'] + spec_digits(self@.minor as int),
    {
        proof {
            reveal_strlit(".");
        }
        let mut out = u16_to_string(self.major);
        out.append(".");
        let minor_s = u16_to_string(self.minor);
        out.append(minor_s.as_str());
        proof {
            assert((".")@ =~= seq!['.']);
        }
        out
    }

    /// Parses a dotted version string with exactly three segments into a
    /// version value, as [`spec_parse`] describes.
    pub fn parse(version_str: &str) -> (r: Result<JavaVersion, VersionFormatError>)
        ensures
            r matches Ok(v) ==> spec_parse(version_str@) matches Ok(w) && v@ == w,
            r matches Err(e) ==> spec_parse(version_str@) matches Err(e2) && e == e2,
    {
        let ghost s = version_str@;
        let n = version_str.unicode_len();
        let mut i: usize = 0;
        let mut count: usize = 0;
        let mut d1: usize = 0;
        let mut has1 = false;
        let mut d2: usize = 0;
        let mut has2 = false;
        while i < n
            invariant
                s == version_str@,
                n == s.len(),
                i <= n,
                count == dot_count(s.take(i as int)),
                count <= 2,
                count == 0 <==> !has1,
                count == 1 <==> (has1 && !has2),
                count == 2 <==> has2,
                has2 ==> has1,
                has1 ==> d1 < i && s[d1 as int] == '.' && (forall|k: int|
                    0 <= k < d1 ==> s[k] != '.'),
                has2 ==> d1 < d2 < i && s[d2 as int] == '.' && (forall|k: int|
                    d1 < k < d2 ==> s[k] != '.'),
                forall|k: int|
                    0 <= k < i && s[k] == '.' ==> (has1 && k == d1) || (has2 && k == d2),
            decreases n - i,
        {
            let c = version_str.get_char(i);
            proof {
                lemma_dot_count_snoc(s, i as int);
            }
            if c == '.' {
                if count == 2 {
                    proof {
                        lemma_dot_count_take_le(s, i as int + 1);
                        lemma_split_dots_len(s);
                    }
                    return Err(VersionFormatError::TooManyParts);
                }
                if !has1 {
                    d1 = i;
                    has1 = true;
                } else {
                    d2 = i;
                    has2 = true;
                }
                count = count + 1;
            }
            i = i + 1;
        }
        proof {
            assert(s.take(n as int) =~= s);
            lemma_split_dots_len(s);
        }
        if count < 2 {
            return Err(VersionFormatError::NotEnoughParts);
        }
        // Exactly two dots at d1 < d2: the segments are [0, d1),
        // (d1, d2) and (d2, n).
        proof {
            lemma_split_at_first_dot(s, d1 as int);
            let t = s.skip(d1 as int + 1);
            assert(t[d2 - d1 - 1] == '.');
            assert(forall|k: int| 0 <= k < d2 - d1 - 1 ==> t[k] != '.');
            lemma_split_at_first_dot(t, d2 as int - d1 - 1);
            let u = t.skip(d2 as int - d1);
            assert(u =~= s.skip(d2 as int + 1));
            assert(forall|k: int| 0 <= k < u.len() ==> u[k] != '.');
            lemma_split_no_dot(u);
            assert(t.take(d2 - d1 - 1) =~= s.subrange(d1 as int + 1, d2 as int));
            assert(split_dots(s) =~~= seq![
                s.take(d1 as int),
                s.subrange(d1 as int + 1, d2 as int),
                s.skip(d2 as int + 1),
            ]);
        }
        let major = match parse_number(version_str, 0, d1) {
            Some(v) => v,
            None => {
                return Err(VersionFormatError::InvalidNumber);
            },
        };
        let minor = match parse_number(version_str, d1 + 1, d2) {
            Some(v) => v,
            None => {
                return Err(VersionFormatError::InvalidNumber);
            },
        };
        let build_str = version_str.substring_char(d2 + 1, n);
        let build = String::from_str(build_str);
        proof {
            assert(s.take(d1 as int) =~= s.subrange(0, d1 as int));
        }
        Ok(JavaVersion { major, minor, build })
    }
}

} // verus!
