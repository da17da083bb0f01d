//! Extracting the runtime's version from its diagnostic output.
//!
//! Running the runtime with its version-query flag prints a line such as
//! `java version "1.8.0_201"` on the diagnostic stream.  The version
//! token is the quoted run of digits, dots, underscores and dashes after
//! the word `version`; this module finds the leftmost such token, parses
//! it, and compares the result against the fixed minimum the bootstrap
//! requires.

use vstd::prelude::*;
use crate::version::{
    spec_parse, version_le, JavaVersion, JavaVersionView, VersionFormatError,
};

verus! {

/// Why the runtime's version could not be determined from a probe.
#[derive(Debug, PartialEq, Eq)]
pub enum CommandError {
    /// The probe command could not be run at all; carries the reported
    /// reason.
    IoError(String),
    /// The probe printed bytes that do not decode as text.
    InvalidEncoding,
    /// The probe's output holds no quoted version token.
    InvalidOutput,
    /// The quoted token is not a well-formed version string.
    InvalidVersion(VersionFormatError),
}

/// The smallest runtime version the bootstrap will launch with.
pub const REQUIRED_MAJOR: u16 = 1;

pub const REQUIRED_MINOR: u16 = 8;

/// The version the compatibility gate compares against.
pub open spec fn spec_required() -> JavaVersionView {
    JavaVersionView { major: REQUIRED_MAJOR, minor: REQUIRED_MINOR, build: seq!['0'] }
}

/// The bytes a version token may consist of: digits, `.`, `_` and `-`.
pub open spec fn is_token_byte(b: u8) -> bool {
    (48 <= b && b <= 57) || b == 46 || b == 95 || b == 45
}

/// ASCII whitespace, as allowed between the word `version` and the
/// opening quote.
pub open spec fn is_space_byte(b: u8) -> bool {
    b == 32 || b == 9 || b == 10 || b == 13 || b == 11 || b == 12
}

/// The index just past the maximal run of token bytes starting at `j`.
pub open spec fn token_run_end(s: Seq<u8>, j: int) -> int
    decreases s.len() - j
    when 0 <= j <= s.len()
{
    if j < s.len() && is_token_byte(s[j]) {
        token_run_end(s, j + 1)
    } else {
        j
    }
}

pub open spec fn version_word() -> Seq<u8> {
    seq![118, 101, 114, 115, 105, 111, 110]
}

/// Whether the pattern `version`, one whitespace byte, `"`, a non-empty
/// token run, `"` starts at position `i`.
pub open spec fn probe_match_at(s: Seq<u8>, i: int) -> bool {
    let e = token_run_end(s, i + 9);
    &&& 0 <= i
    &&& i + 9 <= s.len()
    &&& s.subrange(i, i + 7) == version_word()
    &&& is_space_byte(s[i + 7])
    &&& s[i + 8] == 34
    &&& e > i + 9
    &&& e < s.len()
    &&& s[e] == 34
}

/// The token at a match position: the bytes between the quotes.
pub open spec fn spec_token_at(s: Seq<u8>, i: int) -> Seq<u8> {
    s.subrange(i + 9, token_run_end(s, i + 9))
}

/// The leftmost match position at or after `i`, if any.
pub open spec fn first_probe_match(s: Seq<u8>, i: int) -> Option<int>
    decreases s.len() - i
    when 0 <= i <= s.len()
{
    if i >= s.len() {
        None
    } else if probe_match_at(s, i) {
        Some(i)
    } else {
        first_probe_match(s, i + 1)
    }
}

/// The version token of a probe output: the token of the leftmost match.
pub open spec fn spec_extract_token(s: Seq<u8>) -> Option<Seq<u8>> {
    match first_probe_match(s, 0) {
        None => None,
        Some(i) => Some(spec_token_at(s, i)),
    }
}

/// The character a token byte stands for.
pub open spec fn byte_char(b: u8) -> char {
    if b == 48 {
        '0'
    } else if b == 49 {
        '1'
    } else if b == 50 {
        '2'
    } else if b == 51 {
        '3'
    } else if b == 52 {
        '4'
    } else if b == 53 {
        '5'
    } else if b == 54 {
        '6'
    } else if b == 55 {
        '7'
    } else if b == 56 {
        '8'
    } else if b == 57 {
        '9'
    } else if b == 46 {
        '.'
    } else if b == 95 {
        '_'
    } else if b == 45 {
        '-'
    } else {
        '?'
    }
}

/// A token read as text, character for character.
pub open spec fn token_chars(t: Seq<u8>) -> Seq<char> {
    t.map_values(|b: u8| byte_char(b))
}

proof fn lemma_first_match_from(s: Seq<u8>, i: int)
    requires
        0 <= i <= s.len(),
        forall|k: int| 0 <= k < i ==> !probe_match_at(s, k),
    ensures
        first_probe_match(s, 0) == first_probe_match(s, i),
    decreases i,
{
    if i > 0 {
        lemma_first_match_from(s, i - 1);
    }
}

proof fn lemma_first_match_none(s: Seq<u8>, i: int)
    requires
        0 <= i <= s.len(),
        forall|k: int| i <= k < s.len() ==> !probe_match_at(s, k),
    ensures
        first_probe_match(s, i) is None,
    decreases s.len() - i,
{
    if i < s.len() {
        lemma_first_match_none(s, i + 1);
    }
}

fn is_token_byte_exec(b: u8) -> (r: bool)
    ensures
        r == is_token_byte(b),
{
    (48 <= b && b <= 57) || b == 46 || b == 95 || b == 45
}

fn is_space_byte_exec(b: u8) -> (r: bool)
    ensures
        r == is_space_byte(b),
{
    b == 32 || b == 9 || b == 10 || b == 13 || b == 11 || b == 12
}

/// Finds the leftmost probe match and returns the bounds of its token.
fn find_probe_match(s: &Vec<u8>) -> (r: Option<(usize, usize)>)
    ensures
        r is None ==> first_probe_match(s@, 0) is None,
        r matches Some((a, b)) ==> {
            &&& first_probe_match(s@, 0) == Some(a - 9)
            &&& a as int == (a - 9) + 9
            &&& b == token_run_end(s@, a as int)
            &&& a <= b <= s@.len()
            &&& forall|k: int| a <= k < b ==> is_token_byte(s@[k])
        },
{
    let n = s.len();
    let mut i: usize = 0;
    while n >= 11 && i <= n - 11
        invariant
            n == s@.len(),
            i <= n,
            forall|k: int| 0 <= k < i ==> !probe_match_at(s@, k),
        decreases n - i,
    {
        let word_here = s[i] == 118 && s[i + 1] == 101 && s[i + 2] == 114 && s[i + 3] == 115
            && s[i + 4] == 105 && s[i + 5] == 111 && s[i + 6] == 110
            && is_space_byte_exec(s[i + 7]) && s[i + 8] == 34;
        if word_here {
            assert(s@.subrange(i as int, i as int + 7) =~= version_word());
            let mut j = i + 9;
            while j < n && is_token_byte_exec(s[j])
                invariant
                    n == s@.len(),
                    i + 9 <= j <= n,
                    token_run_end(s@, i as int + 9) == token_run_end(s@, j as int),
                    forall|k: int| i + 9 <= k < j ==> is_token_byte(s@[k]),
                decreases n - j,
            {
                j = j + 1;
            }
            assert(token_run_end(s@, j as int) == j);
            if j > i + 9 && j < n && s[j] == 34 {
                proof {
                    assert(probe_match_at(s@, i as int));
                    lemma_first_match_from(s@, i as int);
                    assert(first_probe_match(s@, i as int) == Some(i as int));
                }
                return Some((i + 9, j));
            }
            assert(!probe_match_at(s@, i as int));
        } else {
            assert(!probe_match_at(s@, i as int)) by {
                if probe_match_at(s@, i as int) {
                    assert(s@.subrange(i as int, i as int + 7) == version_word());
                    assert(s@[i as int] == version_word()[0]);
                    assert(s@[i as int + 1] == version_word()[1]);
                    assert(s@[i as int + 2] == version_word()[2]);
                    assert(s@[i as int + 3] == version_word()[3]);
                    assert(s@[i as int + 4] == version_word()[4]);
                    assert(s@[i as int + 5] == version_word()[5]);
                    assert(s@[i as int + 6] == version_word()[6]);
                }
            }
        }
        i = i + 1;
    }
    proof {
        assert forall|k: int| i <= k < s@.len() implies !probe_match_at(s@, k) by {
            if probe_match_at(s@, k) {
                let e = token_run_end(s@, k + 9);
                assert(e > k + 9 && e < s@.len());
            }
        }
        lemma_first_match_from(s@, i as int);
        lemma_first_match_none(s@, i as int);
    }
    None
}

fn token_byte_str(b: u8) -> (r: &'static str)
    requires
        is_token_byte(b),
    ensures
        r@ == seq![byte_char(b)],
{
    proof {
        reveal_strlit("0");
        reveal_strlit("1");
        reveal_strlit("2");
        reveal_strlit("3");
        reveal_strlit("4");
        reveal_strlit("5");
        reveal_strlit("6");
        reveal_strlit("7");
        reveal_strlit("8");
        reveal_strlit("9");
        reveal_strlit(".");
        reveal_strlit("_");
        reveal_strlit("-");
    }
    let r = match b {
        48 => "0",
        49 => "1",
        50 => "2",
        51 => "3",
        52 => "4",
        53 => "5",
        54 => "6",
        55 => "7",
        56 => "8",
        57 => "9",
        46 => ".",
        95 => "_",
        _ => "-",
    };
    proof {
        assert(r@ =~= seq![byte_char(b)]);
    }
    r
}

/// Copies the token bytes in `[a, b)` of `s` into a string, character
/// for character.
fn token_string(s: &Vec<u8>, a: usize, b: usize) -> (r: String)
    requires
        a <= b <= s@.len(),
        forall|k: int| a <= k < b ==> is_token_byte(s@[k]),
    ensures
        r@ == token_chars(s@.subrange(a as int, b as int)),
{
    let mut out = String::new();
    let mut k = a;
    while k < b
        invariant
            a <= k <= b <= s@.len(),
            forall|j: int| a <= j < b ==> is_token_byte(s@[j]),
            out@ == token_chars(s@.subrange(a as int, k as int)),
        decreases b - k,
    {
        out.append(token_byte_str(s[k]));
        proof {
            assert(token_chars(s@.subrange(a as int, k as int + 1)) =~= token_chars(
                s@.subrange(a as int, k as int),
            ).push(byte_char(s@[k as int])));
        }
        k = k + 1;
    }
    proof {
        assert(s@.subrange(a as int, b as int) =~= s@.subrange(a as int, k as int));
    }
    out
}

impl JavaVersion {
    /// Reads the runtime's version out of the diagnostic output of its
    /// version-query command: the leftmost quoted token after the word
    /// `version`, parsed as a version string.
    pub fn from_command_output(output: &Vec<u8>) -> (r: Result<JavaVersion, CommandError>)
        ensures
            spec_extract_token(output@) is None ==> r == Err::<JavaVersion, CommandError>(
                CommandError::InvalidOutput,
            ),
            spec_extract_token(output@) matches Some(t) ==> match spec_parse(token_chars(t)) {
                Ok(v) => r matches Ok(jv) && jv@ == v,
                Err(e) => r == Err::<JavaVersion, CommandError>(CommandError::InvalidVersion(e)),
            },
    {
        match find_probe_match(output) {
            None => Err(CommandError::InvalidOutput),
            Some((a, b)) => {
                let token = token_string(output, a, b);
                match JavaVersion::parse(token.as_str()) {
                    Ok(v) => Ok(v),
                    Err(e) => Err(CommandError::InvalidVersion(e)),
                }
            },
        }
    }
}

/// Decides from the probe output whether the runtime is at least the
/// required version: `Ok(true)` exactly when a version was extracted and
/// it is no older than the required one.
pub fn check_java_version(output: &Vec<u8>) -> (r: Result<bool, CommandError>)
    ensures
        spec_extract_token(output@) is None ==> r == Err::<bool, CommandError>(
            CommandError::InvalidOutput,
        ),
        spec_extract_token(output@) matches Some(t) ==> match spec_parse(token_chars(t)) {
            Ok(v) => r matches Ok(ok) && ok == version_le(spec_required(), v),
            Err(e) => r == Err::<bool, CommandError>(CommandError::InvalidVersion(e)),
        },
{
    let desired = JavaVersion::new(REQUIRED_MAJOR, REQUIRED_MINOR);
    match JavaVersion::from_command_output(output) {
        Ok(available) => Ok(available >= desired),
        Err(e) => Err(e),
    }
}

} // verus!
