//! Version numbers of the preset-apply tool, and the command that applies
//! a preset.
use vstd::prelude::*;
use vstd::string::StringExecFns;
use crate::text::{split_on, chars_of, split_chars};

verus! {

/// Whether `c` is an ASCII digit.
pub open spec fn is_digit(c: char) -> bool {
    '0' <= c && c <= '9'
}

/// The value of a string of decimal digits.
pub open spec fn decimal(s: Seq<char>) -> nat
    decreases s.len(),
{
    if s.len() == 0 {
        0
    } else {
        decimal(s.drop_last()) * 10 + ((s.last() as u32) - ('0' as u32)) as nat
    }
}

/// What `str::parse` gives for an unsigned integer type whose largest
/// value is `max`: an optional `+` followed by at least one digit, with a
/// value no larger than `max`.
pub open spec fn parse_unsigned(s: Seq<char>, max: nat) -> Option<nat> {
    let d = digits_part(s);
    if d.len() > 0 && (forall|i: int| 0 <= i < d.len() ==> is_digit(#[trigger] d[i])) && decimal(d)
        <= max {
        Some(decimal(d))
    } else {
        None
    }
}

/// `s` without a leading `+`.
pub open spec fn digits_part(s: Seq<char>) -> Seq<char> {
    if s.len() > 0 && s[0] == '+' {
        s.drop_first()
    } else {
        s
    }
}

/// A version component: its parsed value, or 0 where it does not parse.
pub open spec fn component(parts: Seq<Seq<char>>, i: int, max: nat) -> nat {
    if 0 <= i < parts.len() {
        match parse_unsigned(parts[i], max) {
            Some(v) => v,
            None => 0,
        }
    } else {
        0
    }
}

fn parse_component(v: &Vec<char>, max: u64) -> (r: u64)
    requires
        max <= 65535,
    ensures
        r as nat == match parse_unsigned(v@, max as nat) {
            Some(x) => x,
            None => 0,
        },
{
    let start: usize = if v.len() > 0 && v[0] == '+' {
        1
    } else {
        0
    };
    let ghost d = digits_part(v@);
    assert(d =~= v@.subrange(start as int, v@.len() as int));
    if start >= v.len() {
        return 0;
    }
    let mut acc: u64 = 0;
    let mut over = false;
    let mut i: usize = start;
    assert(v@.subrange(start as int, start as int) =~= Seq::<char>::empty());
    while i < v.len()
        invariant
            start <= i <= v@.len(),
            max <= 65535,
            d == v@.subrange(start as int, v@.len() as int),
            d == digits_part(v@),
            forall|j: int| start <= j < i ==> is_digit(#[trigger] v@[j]),
            !over ==> acc as nat == decimal(v@.subrange(start as int, i as int)) && acc <= max,
            over ==> decimal(v@.subrange(start as int, i as int)) > max,
        decreases v@.len() - i,
    {
        let c = v[i];
        if !('0' <= c && c <= '9') {
            assert(d[i - start] == v@[i as int]);
            assert(!is_digit(d[i - start]));
            assert(!is_digit(digits_part(v@)[i - start]));
            assert(parse_unsigned(v@, max as nat) is None);
            return 0;
        }
        let ghost pre = v@.subrange(start as int, i as int);
        assert(v@.subrange(start as int, i + 1).drop_last() =~= pre);
        let digit: u64 = ((c as u32) - ('0' as u32)) as u64;
        proof {
            assert(decimal(pre) * 10 + digit as nat >= decimal(pre)) by (nonlinear_arith);
        }
        if !over {
            let next = acc * 10 + digit;
            if next > max {
                over = true;
            } else {
                acc = next;
            }
        }
        i = i + 1;
    }
    assert(v@.subrange(start as int, v@.len() as int) == d);
    if over {
        0
    } else {
        acc
    }
}

/// A three-part version number.
#[derive(Clone, Copy, Debug, PartialEq, Eq, Structural, PartialOrd, Ord)]
pub struct Semver {
    pub major: u8,
    pub minor: u8,
    pub patch: u16,
}

impl Semver {
    /// Reads `major.minor.patch`; a missing or malformed part reads as 0.
    pub fn new(version: &str) -> (r: Self)
        ensures
            r.major as nat == component(split_on(version@, '.'), 0, 255),
            r.minor as nat == component(split_on(version@, '.'), 1, 255),
            r.patch as nat == component(split_on(version@, '.'), 2, 65535),
    {
        let cs = chars_of(version);
        let parts = split_chars(&cs, '.');
        let major: u64 = if parts.len() > 0 {
            parse_component(&parts[0], 255)
        } else {
            0
        };
        let minor: u64 = if parts.len() > 1 {
            parse_component(&parts[1], 255)
        } else {
            0
        };
        let patch: u64 = if parts.len() > 2 {
            parse_component(&parts[2], 65535)
        } else {
            0
        };
        Semver { major: major as u8, minor: minor as u8, patch: patch as u16 }
    }

    /// Version 0.0.0.
    pub fn default() -> (r: Self)
        ensures
            r.major == 0 && r.minor == 0 && r.patch == 0,
    {
        Semver { major: 0, minor: 0, patch: 0 }
    }
}

/// The preset-apply tool, as far as the daemon needs to know it.
pub struct OpenTabletDriver {
    pub version: Semver,
}

impl OpenTabletDriver {
    /// The tool whose `--version` printed `version_output`.
    pub fn new(version_output: &str) -> (r: Self)
        ensures
            r.version == Semver::new_spec(version_output@),
    {
        OpenTabletDriver { version: Semver::new(version_output) }
    }

    /// The arguments that apply preset `preset_name`: releases from minor
    /// version 7 on spell the subcommand `apply-preset`, older ones
    /// `applypreset`.
    pub fn apply_preset_args(&self, preset_name: &str) -> (r: Vec<String>)
        ensures
            r@.len() == 2,
            r@[0]@ == if self.version.minor >= 7 {
                "apply-preset"@
            } else {
                "applypreset"@
            },
            r@[1]@ == preset_name@,
    {
        let mut r: Vec<String> = Vec::new();
        if self.version.minor >= 7 {
            r.push(String::from_str("apply-preset"));
        } else {
            r.push(String::from_str("applypreset"));
        }
        r.push(String::from_str(preset_name));
        r
    }
}

impl Semver {
    /// The version that `new` reads from `version`.
    pub open spec fn new_spec(version: Seq<char>) -> Semver {
        Semver {
            major: component(split_on(version, '.'), 0, 255) as u8,
            minor: component(split_on(version, '.'), 1, 255) as u8,
            patch: component(split_on(version, '.'), 2, 65535) as u16,
        }
    }
}

} // verus!
