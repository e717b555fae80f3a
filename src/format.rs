use vstd::prelude::*;

use crate::address::MacAddress;
use crate::text::string_of;

verus! {

/// How the letters among the digits are written.
#[derive(Clone, Copy, Debug, PartialEq, Eq)]
pub enum CasePolicy {
    /// Each digit in the case it was read in.
    Preserve,
    ForceUpper,
    ForceLower,
}

/// The textual layout of an address.
#[derive(Clone, Copy, Debug, PartialEq, Eq)]
pub enum Notation {
    /// `xx:xx:xx:xx:xx:xx`
    Standard,
    /// `xxxx.xxxx.xxxx`
    Cisco,
    /// `xx-xx-xx-xx-xx-xx`
    Windows,
    /// `xxxxxxxxxxxx`
    Bare,
}

/// The policy named by an optional flag: `Some(true)` forces upper case,
/// `Some(false)` lower case, and `None` keeps the case as read.
pub open spec fn policy_of(force_case: Option<bool>) -> CasePolicy {
    match force_case {
        Some(true) => CasePolicy::ForceUpper,
        Some(false) => CasePolicy::ForceLower,
        None => CasePolicy::Preserve,
    }
}

impl CasePolicy {
    pub fn from_force_case(force_case: Option<bool>) -> (r: CasePolicy)
        ensures
            r == policy_of(force_case),
    {
        match force_case {
            Some(true) => CasePolicy::ForceUpper,
            Some(false) => CasePolicy::ForceLower,
            None => CasePolicy::Preserve,
        }
    }
}

pub open spec fn lower_digits() -> Seq<char> {
    seq!['0', '1', '2', '3', '4', '5', '6', '7', '8', '9', 'a', 'b', 'c', 'd', 'e', 'f']
}

pub open spec fn upper_digits() -> Seq<char> {
    seq!['0', '1', '2', '3', '4', '5', '6', '7', '8', '9', 'A', 'B', 'C', 'D', 'E', 'F']
}

/// The digit for `v` in `0..16`, in the given case.
pub open spec fn digit_char(v: int, upper: bool) -> char {
    if upper {
        upper_digits()[v]
    } else {
        lower_digits()[v]
    }
}

/// The value of digit `i` of an address: digit `2k` is the high nibble of octet `k`,
/// digit `2k + 1` its low nibble.
pub open spec fn nibble(bytes: Seq<u8>, i: int) -> int {
    if i % 2 == 0 {
        bytes[i / 2] as int / 16
    } else {
        bytes[i / 2] as int % 16
    }
}

/// Whether digit `i` is written in upper case under policy `p`.
pub open spec fn digit_upper(case: Seq<bool>, p: CasePolicy, i: int) -> bool {
    match p {
        CasePolicy::ForceUpper => true,
        CasePolicy::ForceLower => false,
        CasePolicy::Preserve => i < case.len() && case[i],
    }
}

/// The twelve digits of an address, most significant first.
pub open spec fn hex_digits(bytes: Seq<u8>, case: Seq<bool>, p: CasePolicy) -> Seq<char> {
    Seq::new(12, |i: int| digit_char(nibble(bytes, i), digit_upper(case, p, i)))
}

/// The character that notation `n` writes after digit `i`, if any.
pub open spec fn separator_after(n: Notation, i: int) -> Option<char> {
    match n {
        Notation::Standard => if i % 2 == 1 && i < 11 { Some(':') } else { None },
        Notation::Windows => if i % 2 == 1 && i < 11 { Some('-') } else { None },
        Notation::Cisco => if i % 4 == 3 && i < 11 { Some('.') } else { None },
        Notation::Bare => None,
    }
}

/// The first `k` digits of `d`, each followed by the separator that `n` puts after it.
pub open spec fn layout(d: Seq<char>, n: Notation, k: nat) -> Seq<char>
    decreases k,
{
    if k == 0 {
        Seq::empty()
    } else {
        let r = layout(d, n, (k - 1) as nat).push(d[k - 1]);
        match separator_after(n, k - 1) {
            Some(s) => r.push(s),
            None => r,
        }
    }
}

/// The digits `d` written in notation `n`.
pub open spec fn render(d: Seq<char>, n: Notation) -> Seq<char> {
    layout(d, n, d.len())
}

/// An address written in notation `n` under policy `p`.
pub open spec fn formatted(bytes: Seq<u8>, case: Seq<bool>, n: Notation, p: CasePolicy) -> Seq<char> {
    render(hex_digits(bytes, case, p), n)
}

fn digit_for(v: u8, upper: bool) -> (c: char)
    requires
        v < 16,
    ensures
        c == digit_char(v as int, upper),
{
    match v {
        0 => '0',
        1 => '1',
        2 => '2',
        3 => '3',
        4 => '4',
        5 => '5',
        6 => '6',
        7 => '7',
        8 => '8',
        9 => '9',
        10 => if upper { 'A' } else { 'a' },
        11 => if upper { 'B' } else { 'b' },
        12 => if upper { 'C' } else { 'c' },
        13 => if upper { 'D' } else { 'd' },
        14 => if upper { 'E' } else { 'e' },
        _ => if upper { 'F' } else { 'f' },
    }
}

fn separator_for(n: Notation, i: usize) -> (r: Option<char>)
    ensures
        r == separator_after(n, i as int),
{
    match n {
        Notation::Standard => if i % 2 == 1 && i < 11 { Some(':') } else { None },
        Notation::Windows => if i % 2 == 1 && i < 11 { Some('-') } else { None },
        Notation::Cisco => if i % 4 == 3 && i < 11 { Some('.') } else { None },
        Notation::Bare => None,
    }
}

/// Twelve digits laid out in notation `n`.
fn lay_out(digits: &Vec<char>, n: Notation) -> (r: Vec<char>)
    requires
        digits@.len() == 12,
    ensures
        r@ == render(digits@, n),
{
    let mut out: Vec<char> = Vec::new();
    for i in 0..12usize
        invariant
            digits@.len() == 12,
            out@ == layout(digits@, n, i as nat),
    {
        out.push(digits[i]);
        match separator_for(n, i) {
            Some(s) => out.push(s),
            None => {},
        }
    }
    out
}

impl MacAddress {
    /// The twelve digits of the address, each in the case that `force_case` decides.
    pub fn format_hex_chars(&self, force_case: CasePolicy) -> (r: Vec<char>)
        ensures
            r@ == hex_digits(self.bytes@, self.original_case@, force_case),
    {
        let mut chars: Vec<char> = Vec::new();
        for i in 0..6usize
            invariant
                chars@ =~= hex_digits(self.bytes@, self.original_case@, force_case).take(2 * i),
        {
            let byte = self.bytes[i];
            let hi_upper = match force_case {
                CasePolicy::ForceUpper => true,
                CasePolicy::ForceLower => false,
                CasePolicy::Preserve => 2 * i < self.original_case.len() && self.original_case[2 * i],
            };
            let lo_upper = match force_case {
                CasePolicy::ForceUpper => true,
                CasePolicy::ForceLower => false,
                CasePolicy::Preserve => 2 * i + 1 < self.original_case.len()
                    && self.original_case[2 * i + 1],
            };
            chars.push(digit_for(byte / 16, hi_upper));
            chars.push(digit_for(byte % 16, lo_upper));
        }
        chars
    }

    /// The address in notation `notation`, its letters as `force_case` decides.
    pub fn format(&self, notation: Notation, force_case: CasePolicy) -> (r: String)
        ensures
            r@ == formatted(self.bytes@, self.original_case@, notation, force_case),
    {
        let digits = self.format_hex_chars(force_case);
        string_of(&lay_out(&digits, notation))
    }

    /// The address as `xxxx.xxxx.xxxx`.
    pub fn to_cisco(&self, force_case: Option<bool>) -> (r: String)
        ensures
            r@ == formatted(
                self.bytes@,
                self.original_case@,
                Notation::Cisco,
                policy_of(force_case),
            ),
    {
        self.format(Notation::Cisco, CasePolicy::from_force_case(force_case))
    }

    /// The address as `xx:xx:xx:xx:xx:xx`.
    pub fn to_standard(&self, force_case: Option<bool>) -> (r: String)
        ensures
            r@ == formatted(
                self.bytes@,
                self.original_case@,
                Notation::Standard,
                policy_of(force_case),
            ),
    {
        self.format(Notation::Standard, CasePolicy::from_force_case(force_case))
    }

    /// The address as `xx-xx-xx-xx-xx-xx`.
    pub fn to_windows(&self, force_case: Option<bool>) -> (r: String)
        ensures
            r@ == formatted(
                self.bytes@,
                self.original_case@,
                Notation::Windows,
                policy_of(force_case),
            ),
    {
        self.format(Notation::Windows, CasePolicy::from_force_case(force_case))
    }

    /// The address as `xxxxxxxxxxxx`.
    pub fn to_bare(&self, force_case: Option<bool>) -> (r: String)
        ensures
            r@ == formatted(
                self.bytes@,
                self.original_case@,
                Notation::Bare,
                policy_of(force_case),
            ),
    {
        self.format(Notation::Bare, CasePolicy::from_force_case(force_case))
    }
}

} // verus!
