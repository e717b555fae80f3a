use vstd::prelude::*;

use crate::text::{chars_of, hex_char, hex_digit_value, hex_value, is_hex_char, is_upper, upper_char};

verus! {

/// The characters that are dropped from a candidate before its digits are read.
pub open spec fn is_separator(c: char) -> bool {
    c == '-' || c == ':' || c == '.' || c == ' '
}

/// What is left of `s` once every separator character is removed.
pub open spec fn strip_separators(s: Seq<char>) -> Seq<char> {
    s.filter(|c: char| !is_separator(c))
}

/// Exactly twelve hexadecimal digits.
pub open spec fn is_address_digits(d: Seq<char>) -> bool {
    d.len() == 12 && forall|i: int| 0 <= i < 12 ==> is_hex_char(#[trigger] d[i])
}

/// Whether `s` is read as an address.
pub open spec fn accepts(s: Seq<char>) -> bool {
    is_address_digits(strip_separators(s))
}

/// The six octets that twelve digits spell, two digits per octet, high nibble first.
pub open spec fn octets_of(d: Seq<char>) -> Seq<u8> {
    Seq::new(6, |k: int| (hex_value(d[2 * k]) * 16 + hex_value(d[2 * k + 1])) as u8)
}

/// For each digit, whether it is written in upper case.
pub open spec fn case_of(d: Seq<char>) -> Seq<bool> {
    Seq::new(d.len(), |i: int| is_upper(d[i]))
}

pub fn separator(c: char) -> (r: bool)
    ensures
        r == is_separator(c),
{
    c == '-' || c == ':' || c == '.' || c == ' '
}

#[derive(Clone, Copy, Debug, PartialEq, Eq)]
pub enum ParseErrorKind {
    /// Without separators, the candidate is not twelve characters long.
    InvalidLength,
    /// The candidate has twelve characters, and one of them is no hexadecimal digit.
    InvalidHex,
}

/// Why a candidate could not be read, with the candidate as it was given.
#[derive(Clone, Debug)]
pub struct ParseError {
    pub kind: ParseErrorKind,
    pub input: String,
}

impl ParseError {
    /// A line that says what went wrong, naming the candidate.
    pub fn message(&self) -> (r: String)
        ensures
            r@ == (match self.kind {
                ParseErrorKind::InvalidLength => "Invalid MAC address length: "@,
                ParseErrorKind::InvalidHex => "Invalid hex in MAC address: "@,
            }) + self.input@,
    {
        let prefix = match self.kind {
            ParseErrorKind::InvalidLength => "Invalid MAC address length: ",
            ParseErrorKind::InvalidHex => "Invalid hex in MAC address: ",
        };
        String::from_str(prefix).concat(self.input.as_str())
    }
}

/// A hardware address: six octets, and for each of its twelve digits
/// whether it was written in upper case where it was read.
#[derive(Clone, Debug)]
pub struct MacAddress {
    pub bytes: [u8; 6],
    pub original_case: Vec<bool>,
}

impl MacAddress {
    /// One case flag per digit.
    pub open spec fn wf(&self) -> bool {
        self.original_case@.len() == 12
    }

    /// Reads an address in any notation: separators are dropped wherever
    /// they stand, and the twelve digits that remain give the octets.
    pub fn new(input: &str) -> (r: Result<MacAddress, ParseError>)
        ensures
            r is Ok <==> accepts(input@),
            match r {
                Ok(mac) => {
                    &&& strip_separators(input@).len() == 12
                    &&& mac.wf()
                    &&& mac.bytes@ == octets_of(strip_separators(input@))
                    &&& mac.original_case@ == case_of(strip_separators(input@))
                },
                Err(e) => {
                    &&& e.input@ == input@
                    &&& (e.kind == ParseErrorKind::InvalidLength <==> strip_separators(input@).len()
                        != 12)
                },
            },
    {
        let chars = chars_of(input);
        let mut cleaned: Vec<char> = Vec::new();
        for i in 0..chars.len()
            invariant
                chars@ == input@,
                cleaned@ == strip_separators(chars@.take(i as int)),
        {
            let c = chars[i];
            proof {
                let pre = chars@.take(i + 1);
                assert(pre.drop_last() =~= chars@.take(i as int));
                assert(pre.last() == c);
                reveal_with_fuel(Seq::filter, 1);
            }
            if !separator(c) {
                cleaned.push(c);
            }
        }
        assert(chars@.take(chars.len() as int) =~= chars@);
        if cleaned.len() != 12 {
            return Err(ParseError { kind: ParseErrorKind::InvalidLength, input: String::from_str(input) });
        }
        let mut bytes: [u8; 6] = [0u8; 6];
        let mut original_case: Vec<bool> = Vec::new();
        for k in 0..6usize
            invariant
                cleaned@ == strip_separators(input@),
                cleaned@.len() == 12,
                forall|j: int| 0 <= j < 2 * k ==> is_hex_char(#[trigger] cleaned@[j]),
                forall|j: int| 0 <= j < k ==> bytes@[j] == #[trigger] octets_of(cleaned@)[j],
                original_case@ =~= case_of(cleaned@).take(2 * k),
        {
            let hi = cleaned[2 * k];
            let lo = cleaned[2 * k + 1];
            original_case.push(upper_char(hi));
            original_case.push(upper_char(lo));
            if !hex_char(hi) || !hex_char(lo) {
                return Err(ParseError { kind: ParseErrorKind::InvalidHex, input: String::from_str(input) });
            }
            let h = hex_digit_value(hi);
            let l = hex_digit_value(lo);
            bytes[k] = h * 16 + l;
            assert(forall|j: int| 0 <= j < 2 * k + 2 ==> is_hex_char(#[trigger] cleaned@[j])) by {
                assert(cleaned@[2 * k as int] == hi);
            }
        }
        assert(original_case@ =~= case_of(cleaned@));
        Ok(MacAddress { bytes, original_case })
    }
}

} // verus!
