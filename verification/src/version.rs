//! A comparable `(major, minor, patch)` version triple with tolerant parsing.
//!
//! Parsing splits the input on `'.'`. Fewer than three components yield
//! `0.0.0`; otherwise the first three components are read as decimal numbers,
//! after stripping any leading non-digit characters (a `v` prefix, say) from
//! the major component. A component that is not a decimal number after that
//! is an error.

use vstd::prelude::*;
use vstd::string::*;

use crate::strutil::{chars_of, lemma_split_concat, lemma_split_no_sep, lemma_split_on_len, split_char, split_on, tail_of};

verus! {

/// An installed or published plugin version, ordered lexicographically by
/// `(major, minor, patch)`.
#[derive(Debug, Clone, Copy, PartialEq, Eq, Structural, PartialOrd, Ord, Hash)]
pub struct Version {
    pub major: u32,
    pub minor: u32,
    pub patch: u32,
}

/// Why a version string was rejected.
#[derive(Debug, Clone, Copy, PartialEq, Eq, Structural)]
pub enum VersionError {
    /// A numeric component was empty, held a non-digit, or overflowed.
    NotANumber,
}

pub open spec fn is_digit_char(c: char) -> bool {
    48 <= c as u32 && c as u32 <= 57
}

pub open spec fn digit_of(c: char) -> nat {
    (c as u32 - 48) as nat
}

pub open spec fn all_digits(s: Seq<char>) -> bool {
    forall|i: int| 0 <= i < s.len() ==> is_digit_char(#[trigger] s[i])
}

/// The value of a sequence of decimal digits, most significant first.
pub open spec fn dec_value(s: Seq<char>) -> nat
    decreases s.len(),
{
    if s.len() == 0 {
        0
    } else {
        dec_value(s.drop_last()) * 10 + digit_of(s.last())
    }
}

/// A component parses as a `u32` when it is a non-empty run of digits whose
/// value fits.
pub open spec fn parses_as_u32(s: Seq<char>) -> bool {
    s.len() > 0 && all_digits(s) && dec_value(s) <= u32::MAX
}

proof fn lemma_dec_value_prefix_le(s: Seq<char>, i: int)
    requires
        0 <= i <= s.len(),
    ensures
        dec_value(s.take(i)) <= dec_value(s),
    decreases s.len() - i,
{
    if i < s.len() {
        assert(s.take(i + 1).drop_last() =~= s.take(i));
        assert(s.take(i + 1).last() == s[i]);
        assert(dec_value(s.take(i)) <= dec_value(s.take(i + 1)));
        lemma_dec_value_prefix_le(s, i + 1);
    } else {
        assert(s.take(i) =~= s);
    }
}

/// Reads a run of decimal digits as a `u32`, or reports that the run is
/// empty, holds a non-digit, or overflows.
fn parse_u32_digits(s: &Vec<char>) -> (r: Option<u32>)
    ensures
        r matches Some(v) ==> parses_as_u32(s@) && v == dec_value(s@),
        r is None ==> !parses_as_u32(s@),
{
    if s.len() == 0 {
        return None;
    }
    let mut acc: u32 = 0;
    let mut i: usize = 0;
    while i < s.len()
        invariant
            0 <= i <= s@.len(),
            all_digits(s@.take(i as int)),
            acc == dec_value(s@.take(i as int)),
        decreases s@.len() - i,
    {
        let c = s[i];
        let u = c as u32;
        if u < 48 || u > 57 {
            assert(!is_digit_char(s@[i as int]));
            return None;
        }
        let d = u - 48;
        if acc > (u32::MAX - d) / 10 {
            proof {
                assert(s@.take(i + 1).drop_last() =~= s@.take(i as int));
                assert(s@.take(i + 1).last() == s@[i as int]);
                assert(dec_value(s@.take(i + 1)) > u32::MAX);
                lemma_dec_value_prefix_le(s@, i + 1);
            }
            return None;
        }
        proof {
            assert(s@.take(i + 1).drop_last() =~= s@.take(i as int));
            assert(s@.take(i + 1).last() == s@[i as int]);
        }
        acc = acc * 10 + d;
        i = i + 1;
    }
    proof {
        assert(s@.take(i as int) =~= s@);
    }
    Some(acc)
}

/// Drops leading characters up to the first decimal digit, the tolerated
/// prefix of a major component (`v2`, say).
pub open spec fn strip_nondigit_prefix(s: Seq<char>) -> Seq<char>
    decreases s.len(),
{
    if s.len() == 0 {
        s
    } else if is_digit_char(s[0]) {
        s
    } else {
        strip_nondigit_prefix(s.skip(1))
    }
}

fn strip_prefix_exec(s: &Vec<char>) -> (r: Vec<char>)
    ensures
        r@ == strip_nondigit_prefix(s@),
{
    let mut i: usize = 0;
    proof {
        assert(s@.skip(0) =~= s@);
    }
    while i < s.len()
        invariant
            0 <= i <= s@.len(),
            strip_nondigit_prefix(s@) == strip_nondigit_prefix(s@.skip(i as int)),
        decreases s@.len() - i,
    {
        let u = s[i] as u32;
        if 48 <= u && u <= 57 {
            proof {
                assert(s@.skip(i as int)[0] == s@[i as int]);
            }
            let r = tail_of(s, i);
            return r;
        }
        proof {
            assert(s@.skip(i as int)[0] == s@[i as int]);
            assert(s@.skip(i as int).skip(1) =~= s@.skip(i + 1));
        }
        i = i + 1;
    }
    proof {
        assert(s@.skip(i as int) =~= Seq::<char>::empty());
        assert(strip_nondigit_prefix(s@) =~= Seq::<char>::empty());
    }
    Vec::new()
}

/// What a version string means: fewer than three dot-separated components
/// yield `0.0.0`; otherwise the first three components must be decimal
/// numbers, the major one after its tolerated prefix is stripped.
pub open spec fn spec_parse_version(s: Seq<char>) -> Option<Version> {
    let parts = split_on(s, '.');
    if parts.len() < 3 {
        Some(Version { major: 0, minor: 0, patch: 0 })
    } else {
        let m = strip_nondigit_prefix(parts[0]);
        if parses_as_u32(m) && parses_as_u32(parts[1]) && parses_as_u32(parts[2]) {
            Some(
                Version {
                    major: dec_value(m) as u32,
                    minor: dec_value(parts[1]) as u32,
                    patch: dec_value(parts[2]) as u32,
                },
            )
        } else {
            None
        }
    }
}

/// The canonical decimal rendering of `n`, without leading zeros.
pub open spec fn dec_digits(n: nat) -> Seq<char>
    decreases n,
{
    if n < 10 {
        seq![digit_char_of(n % 10)]
    } else {
        dec_digits(n / 10).push(digit_char_of(n % 10))
    }
}

pub open spec fn digit_char_of(d: nat) -> char {
    if d == 0 {
        '0'
    } else if d == 1 {
        '1'
    } else if d == 2 {
        '2'
    } else if d == 3 {
        '3'
    } else if d == 4 {
        '4'
    } else if d == 5 {
        '5'
    } else if d == 6 {
        '6'
    } else if d == 7 {
        '7'
    } else if d == 8 {
        '8'
    } else {
        '9'
    }
}

/// `major.minor.patch`, each component in canonical decimal.
pub open spec fn spec_format(v: Version) -> Seq<char> {
    dec_digits(v.major as nat) + seq!['.'] + dec_digits(v.minor as nat) + seq![
        '.',
    ] + dec_digits(v.patch as nat)
}

/// Lexicographic strict order on the `(major, minor, patch)` triple.
pub open spec fn spec_lt(a: Version, b: Version) -> bool {
    a.major < b.major || (a.major == b.major && (a.minor < b.minor || (a.minor == b.minor
        && a.patch < b.patch)))
}

impl Version {
    /// Parses a version string: fewer than three dot-separated components
    /// yield `0.0.0`, leading non-digits of the major component are
    /// tolerated, and any other non-numeric component is an error.
    pub fn from_str(s: &str) -> (r: Result<Version, VersionError>)
        ensures
            r matches Ok(v) ==> spec_parse_version(s@) == Some(v),
            r is Err ==> spec_parse_version(s@) is None,
    {
        let chars = chars_of(s);
        let parts = split_char(&chars, '.');
        proof {
            lemma_split_on_len(s@, '.');
        }
        if parts.len() < 3 {
            return Ok(Version { major: 0, minor: 0, patch: 0 });
        }
        let m = strip_prefix_exec(&parts[0]);
        let major = match parse_u32_digits(&m) {
            Some(v) => v,
            None => {
                return Err(VersionError::NotANumber);
            },
        };
        let minor = match parse_u32_digits(&parts[1]) {
            Some(v) => v,
            None => {
                return Err(VersionError::NotANumber);
            },
        };
        let patch = match parse_u32_digits(&parts[2]) {
            Some(v) => v,
            None => {
                return Err(VersionError::NotANumber);
            },
        };
        Ok(Version { major, minor, patch })
    }

    /// Renders the version as `major.minor.patch`.
    pub fn format(&self) -> (r: String)
        ensures
            r@ == spec_format(*self),
    {
        let mut out = String::new();
        append_u32(&mut out, self.major);
        append_dot(&mut out);
        append_u32(&mut out, self.minor);
        append_dot(&mut out);
        append_u32(&mut out, self.patch);
        proof {
            assert(out@ =~= spec_format(*self));
        }
        out
    }
}

fn append_digit(out: &mut String, d: u32)
    requires
        d < 10,
    ensures
        final(out)@ == old(out)@ + seq![digit_char_of(d as nat)],
{
    proof {
        reveal_strlit("0");
        reveal_strlit("1");
        reveal_strlit("2");
        reveal_strlit("3");
        reveal_strlit("4");
        reveal_strlit("5");
        reveal_strlit("6");
        reveal_strlit("7");
        reveal_strlit("8");
        reveal_strlit("9");
    }
    if d == 0 {
        out.append("0");
        proof {
            assert(out@ =~= old(out)@ + seq![digit_char_of(d as nat)]);
        }
    } else if d == 1 {
        out.append("1");
        proof {
            assert(out@ =~= old(out)@ + seq![digit_char_of(d as nat)]);
        }
    } else if d == 2 {
        out.append("2");
        proof {
            assert(out@ =~= old(out)@ + seq![digit_char_of(d as nat)]);
        }
    } else if d == 3 {
        out.append("3");
        proof {
            assert(out@ =~= old(out)@ + seq![digit_char_of(d as nat)]);
        }
    } else if d == 4 {
        out.append("4");
        proof {
            assert(out@ =~= old(out)@ + seq![digit_char_of(d as nat)]);
        }
    } else if d == 5 {
        out.append("5");
        proof {
            assert(out@ =~= old(out)@ + seq![digit_char_of(d as nat)]);
        }
    } else if d == 6 {
        out.append("6");
        proof {
            assert(out@ =~= old(out)@ + seq![digit_char_of(d as nat)]);
        }
    } else if d == 7 {
        out.append("7");
        proof {
            assert(out@ =~= old(out)@ + seq![digit_char_of(d as nat)]);
        }
    } else if d == 8 {
        out.append("8");
        proof {
            assert(out@ =~= old(out)@ + seq![digit_char_of(d as nat)]);
        }
    } else {
        out.append("9");
        proof {
            assert(out@ =~= old(out)@ + seq![digit_char_of(d as nat)]);
        }
    }
}

fn append_dot(out: &mut String)
    ensures
        final(out)@ == old(out)@ + seq!['.'],
{
    proof {
        reveal_strlit(".");
    }
    out.append(".");
    proof {
        assert(out@ =~= old(out)@ + seq!['.']);
    }
}

fn append_u32(out: &mut String, n: u32)
    ensures
        final(out)@ == old(out)@ + dec_digits(n as nat),
    decreases n,
{
    if n < 10 {
        append_digit(out, n);
        proof {
            assert(out@ =~= old(out)@ + dec_digits(n as nat));
        }
    } else {
        append_u32(out, n / 10);
        append_digit(out, n % 10);
        proof {
            assert(out@ =~= old(out)@ + dec_digits(n as nat));
        }
    }
}

proof fn lemma_digit_char_of_val(d: nat)
    requires
        d < 10,
    ensures
        is_digit_char(digit_char_of(d)),
        digit_of(digit_char_of(d)) == d,
{
}

/// The canonical decimal rendering is a non-empty run of digits whose value
/// is the number rendered.
pub proof fn lemma_dec_digits_value(n: nat)
    ensures
        all_digits(dec_digits(n)),
        dec_digits(n).len() >= 1,
        dec_value(dec_digits(n)) == n,
    decreases n,
{
    vstd::arithmetic::div_mod::lemma_fundamental_div_mod(n as int, 10);
    if n < 10 {
        lemma_digit_char_of_val(n % 10);
        let s = dec_digits(n);
        assert(s == seq![digit_char_of(n % 10)]);
        assert(s.last() == digit_char_of(n % 10));
        assert(s.drop_last() =~= Seq::<char>::empty());
        assert(dec_value(s) == dec_value(s.drop_last()) * 10 + digit_of(s.last()));
        assert(dec_value(s) == n % 10);
    } else {
        lemma_dec_digits_value(n / 10);
        lemma_digit_char_of_val(n % 10);
        let p = dec_digits(n / 10);
        let s = dec_digits(n);
        assert(s.drop_last() =~= p);
        assert forall|i: int| 0 <= i < s.len() implies is_digit_char(#[trigger] s[i]) by {
            if i < s.len() - 1 {
                assert(s[i] == p[i]);
            }
        }
    }
}

/// Parsing the canonical rendering of a version gives that version back:
/// for every version, `from_str` after `format` round-trips.
pub proof fn lemma_parse_format_roundtrip(v: Version)
    ensures
        spec_parse_version(spec_format(v)) == Some(v),
{
    let a = dec_digits(v.major as nat);
    let b = dec_digits(v.minor as nat);
    let c = dec_digits(v.patch as nat);
    lemma_dec_digits_value(v.major as nat);
    lemma_dec_digits_value(v.minor as nat);
    lemma_dec_digits_value(v.patch as nat);
    let s = spec_format(v);
    assert forall|q: Seq<char>, i: int|
        all_digits(q) && 0 <= i < q.len() implies #[trigger] q[i] != '.' by {
        assert(is_digit_char(q[i]));
    }
    assert(s =~= a + seq!['.'] + (b + seq!['.'] + c));
    lemma_split_concat(a, b + seq!['.'] + c, '.');
    lemma_split_concat(b, c, '.');
    lemma_split_no_sep(c, '.');
    let parts = split_on(s, '.');
    assert(parts =~~= seq![a] + (seq![b] + seq![c]));
    assert(parts.len() == 3);
    assert(parts[0] == a && parts[1] == b && parts[2] == c);
    assert(is_digit_char(a[0]));
    assert(strip_nondigit_prefix(a) == a);
    assert(dec_value(a) <= u32::MAX && dec_value(b) <= u32::MAX && dec_value(c) <= u32::MAX);
    assert(spec_parse_version(s) == Some(v));
}

/// The version order is transitive.
pub proof fn lemma_order_transitive(a: Version, b: Version, c: Version)
    requires
        spec_lt(a, b),
        spec_lt(b, c),
    ensures
        spec_lt(a, c),
{
}

/// The version order is total and strict: two versions are related in
/// exactly one of the three ways, and equal triples compare equal.
pub proof fn lemma_order_strict_total(a: Version, b: Version)
    ensures
        spec_lt(a, b) || spec_lt(b, a) || a == b,
        spec_lt(a, b) ==> !spec_lt(b, a) && a != b,
        a == b ==> !spec_lt(a, b),
{
}

} // verus!
