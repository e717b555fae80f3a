use vstd::prelude::*;

use crate::address::{accepts, case_of, octets_of, strip_separators, MacAddress, ParseError, ParseErrorKind};
use crate::format::{formatted, CasePolicy, Notation};
use crate::scan::{find_mac_addresses, scan_spec, views};

verus! {

/// Why a whole run produced nothing.
#[derive(Clone, Copy, Debug, PartialEq, Eq)]
pub enum BatchError {
    /// The text holds no candidate at all.
    NoAddressesFound,
}

impl BatchError {
    pub fn message(&self) -> (r: String)
        ensures
            r@ == "No MAC addresses found in input"@,
    {
        String::from_str("No MAC addresses found in input")
    }
}

/// What a run produced: the formatted addresses, and the candidates that
/// could not be read, each in the order the scanner gave them.
#[derive(Debug)]
pub struct Report {
    pub lines: Vec<String>,
    pub failures: Vec<ParseError>,
}

/// The candidate `c` written in notation `n` under policy `p`.
pub open spec fn reformatted(c: Seq<char>, n: Notation, p: CasePolicy) -> Seq<char> {
    formatted(octets_of(strip_separators(c)), case_of(strip_separators(c)), n, p)
}

/// The lines a run emits for the candidates `cands`: one for each that reads as an address.
pub open spec fn emitted(cands: Seq<Seq<char>>, n: Notation, p: CasePolicy) -> Seq<Seq<char>>
    decreases cands.len(),
{
    if cands.len() == 0 {
        Seq::empty()
    } else {
        let r = emitted(cands.drop_last(), n, p);
        if accepts(cands.last()) {
            r.push(reformatted(cands.last(), n, p))
        } else {
            r
        }
    }
}

/// The candidates among `cands` that do not read as an address.
pub open spec fn rejected(cands: Seq<Seq<char>>) -> Seq<Seq<char>> {
    cands.filter(|c: Seq<char>| !accepts(c))
}

/// The candidates that a list of errors names.
pub open spec fn failed_inputs(errs: Seq<ParseError>) -> Seq<Seq<char>> {
    errs.map_values(|e: ParseError| e.input@)
}

/// The kind of error that a candidate which does not read as an address gives.
pub open spec fn error_kind(c: Seq<char>) -> ParseErrorKind {
    if strip_separators(c).len() != 12 {
        ParseErrorKind::InvalidLength
    } else {
        ParseErrorKind::InvalidHex
    }
}

/// Finds every candidate in `input`, reads each, and writes each one that
/// reads as an address in `notation`; a candidate that cannot be read is
/// reported and the rest go on. Fails only where there is no candidate at all.
pub fn process_input(input: &str, notation: Notation, force_case: CasePolicy) -> (r: Result<
    Report,
    BatchError,
>)
    ensures
        r is Err <==> scan_spec(input@).len() == 0,
        match r {
            Ok(rep) => {
                &&& views(rep.lines@) == emitted(scan_spec(input@), notation, force_case)
                &&& failed_inputs(rep.failures@) == rejected(scan_spec(input@))
                &&& forall|j: int|
                    0 <= j < rep.failures@.len() ==> (#[trigger] rep.failures@[j]).kind
                        == error_kind(rep.failures@[j].input@)
            },
            Err(e) => e == BatchError::NoAddressesFound,
        },
{
    let candidates = find_mac_addresses(input);
    if candidates.len() == 0 {
        return Err(BatchError::NoAddressesFound);
    }
    let ghost cands = scan_spec(input@);
    let mut lines: Vec<String> = Vec::new();
    let mut failures: Vec<ParseError> = Vec::new();
    for i in 0..candidates.len()
        invariant
            views(candidates@) == cands,
            views(lines@) == emitted(cands.take(i as int), notation, force_case),
            failed_inputs(failures@) == rejected(cands.take(i as int)),
            forall|j: int|
                0 <= j < failures@.len() ==> (#[trigger] failures@[j]).kind == error_kind(
                    failures@[j].input@,
                ),
    {
        let ghost pre = cands.take(i + 1);
        let ghost lines_before = views(lines@);
        let ghost failures_before = failed_inputs(failures@);
        proof {
            assert(pre.drop_last() =~= cands.take(i as int));
            assert(pre.last() == candidates@[i as int]@);
            reveal_with_fuel(Seq::filter, 1);
        }
        match MacAddress::new(candidates[i].as_str()) {
            Ok(mac) => {
                let line = mac.format(notation, force_case);
                lines.push(line);
                assert(views(lines@) =~= lines_before.push(line@));
            },
            Err(e) => {
                failures.push(e);
                assert(failed_inputs(failures@) =~= failures_before.push(e.input@));
            },
        }
    }
    assert(cands.take(candidates.len() as int) =~= cands);
    Ok(Report { lines, failures })
}

} // verus!
