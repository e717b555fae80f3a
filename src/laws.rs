use vstd::prelude::*;

use crate::address::{accepts, case_of, is_address_digits, is_separator, octets_of, strip_separators};
use crate::batch::reformatted;
use crate::format::{
    digit_char, formatted, hex_digits, layout, nibble, separator_after, CasePolicy, Notation,
};
use crate::scan::{family_len, find_all, find_from, is_match, matches_at, scan_spec, Family};
use crate::text::{hex_value, is_hex_char, is_lower, is_upper};

verus! {

/// The digit for a value is a hexadecimal digit of that value, in the asked case
/// where it is a letter.
pub proof fn lemma_digit_char(v: int, upper: bool)
    requires
        0 <= v < 16,
    ensures
        is_hex_char(digit_char(v, upper)),
        hex_value(digit_char(v, upper)) == v,
        v < 10 ==> '0' <= digit_char(v, upper) <= '9',
        v >= 10 && upper ==> 'A' <= digit_char(v, upper) <= 'F',
        v >= 10 && !upper ==> 'a' <= digit_char(v, upper) <= 'f',
{
}

/// Writing the value of a hexadecimal digit in the case it had gives the digit back.
pub proof fn lemma_digit_of_value(c: char)
    requires
        is_hex_char(c),
    ensures
        digit_char(hex_value(c), is_upper(c)) == c,
{
    lemma_digit_char(hex_value(c), is_upper(c));
    let d = digit_char(hex_value(c), is_upper(c));
    assert(d as u32 == c as u32);
}

/// Reading twelve digits and writing them again with their case kept gives them back.
pub proof fn lemma_digits_read_back(d: Seq<char>)
    requires
        is_address_digits(d),
    ensures
        hex_digits(octets_of(d), case_of(d), CasePolicy::Preserve) == d,
{
    let b = octets_of(d);
    let back = hex_digits(b, case_of(d), CasePolicy::Preserve);
    assert forall|i: int| 0 <= i < 12 implies #[trigger] back[i] == d[i] by {
        let k = i / 2;
        let hi = hex_value(d[2 * k]);
        let lo = hex_value(d[2 * k + 1]);
        assert(is_hex_char(d[2 * k]) && is_hex_char(d[2 * k + 1]));
        assert(b[k] as int == hi * 16 + lo);
        assert((hi * 16 + lo) / 16 == hi && (hi * 16 + lo) % 16 == lo) by (nonlinear_arith)
            requires 0 <= hi < 16 && 0 <= lo < 16;
        lemma_digit_of_value(d[i]);
    }
    assert(back =~= d);
}

/// Every separator that a notation writes is one that reading drops.
proof fn lemma_separator_dropped(n: Notation, i: int)
    ensures
        separator_after(n, i) is Some ==> is_separator(separator_after(n, i)->0),
{
}

/// Dropping the separators from the first `k` digits laid out leaves those digits.
proof fn lemma_strip_layout(d: Seq<char>, n: Notation, k: nat)
    requires
        k <= d.len(),
        forall|i: int| 0 <= i < d.len() ==> !is_separator(#[trigger] d[i]),
    ensures
        strip_separators(layout(d, n, k)) == d.take(k as int),
    decreases k,
{
    reveal_with_fuel(Seq::filter, 1);
    if k > 0 {
        lemma_strip_layout(d, n, (k - 1) as nat);
        lemma_separator_dropped(n, k - 1);
        let r = layout(d, n, (k - 1) as nat).push(d[k - 1]);
        assert(r.drop_last() =~= layout(d, n, (k - 1) as nat));
        assert(strip_separators(r) =~= d.take(k as int));
        match separator_after(n, k - 1) {
            Some(s) => {
                assert(r.push(s).drop_last() =~= r);
            },
            None => {},
        }
    }
}

/// Every character that a notation writes satisfies `pred`, where the digits
/// and the separators do.
proof fn lemma_layout_chars(d: Seq<char>, n: Notation, k: nat, pred: spec_fn(char) -> bool)
    requires
        k <= d.len(),
        forall|i: int| 0 <= i < d.len() ==> pred(#[trigger] d[i]),
        pred(':') && pred('-') && pred('.'),
    ensures
        forall|j: int| 0 <= j < layout(d, n, k).len() ==> pred(#[trigger] layout(d, n, k)[j]),
    decreases k,
{
    if k > 0 {
        lemma_layout_chars(d, n, (k - 1) as nat, pred);
        let prev = layout(d, n, (k - 1) as nat);
        let r = prev.push(d[k - 1]);
        assert forall|j: int| 0 <= j < r.len() implies pred(#[trigger] r[j]) by {
            if j < prev.len() {
                assert(r[j] == prev[j]);
            }
        }
        match separator_after(n, k - 1) {
            Some(s) => {
                assert forall|j: int| 0 <= j < r.push(s).len() implies pred(
                    #[trigger] r.push(s)[j],
                ) by {
                    if j < r.len() {
                        assert(r.push(s)[j] == r[j]);
                    }
                }
            },
            None => {},
        }
    }
}

/// Round trip: an address written in any notation, with any case for each
/// digit, reads back and is written again exactly as it was when its case is kept.
pub proof fn lemma_round_trip(bytes: Seq<u8>, upper: Seq<bool>, n: Notation)
    requires
        bytes.len() == 6,
        upper.len() == 12,
    ensures
        accepts(formatted(bytes, upper, n, CasePolicy::Preserve)),
        reformatted(formatted(bytes, upper, n, CasePolicy::Preserve), n, CasePolicy::Preserve)
            == formatted(bytes, upper, n, CasePolicy::Preserve),
{
    let d = hex_digits(bytes, upper, CasePolicy::Preserve);
    assert forall|i: int| 0 <= i < 12 implies is_hex_char(#[trigger] d[i]) by {
        lemma_digit_char(nibble(bytes, i), upper[i]);
    }
    lemma_strip_layout(d, n, 12);
    assert(d.take(12) =~= d);
    lemma_digits_read_back(d);
}

/// Formatting depends on the address, the notation and the policy alone:
/// the same three give the same text.
pub proof fn lemma_format_deterministic(
    bytes1: Seq<u8>,
    case1: Seq<bool>,
    bytes2: Seq<u8>,
    case2: Seq<bool>,
    n: Notation,
    p: CasePolicy,
)
    requires
        bytes1 == bytes2,
        case1 == case2,
    ensures
        formatted(bytes1, case1, n, p) == formatted(bytes2, case2, n, p),
{
}

/// Forcing upper case leaves no lower-case letter in the text, and forcing
/// lower case no upper-case one.
pub proof fn lemma_forced_case(bytes: Seq<u8>, case: Seq<bool>, n: Notation)
    requires
        bytes.len() == 6,
    ensures
        forall|j: int|
            0 <= j < formatted(bytes, case, n, CasePolicy::ForceUpper).len() ==> !is_lower(
                #[trigger] formatted(bytes, case, n, CasePolicy::ForceUpper)[j],
            ),
        forall|j: int|
            0 <= j < formatted(bytes, case, n, CasePolicy::ForceLower).len() ==> !is_upper(
                #[trigger] formatted(bytes, case, n, CasePolicy::ForceLower)[j],
            ),
{
    let up = hex_digits(bytes, case, CasePolicy::ForceUpper);
    let low = hex_digits(bytes, case, CasePolicy::ForceLower);
    assert forall|i: int| 0 <= i < 12 implies !is_lower(#[trigger] up[i]) && !is_upper(low[i]) by {
        lemma_digit_char(nibble(bytes, i), true);
        lemma_digit_char(nibble(bytes, i), false);
    }
    lemma_layout_chars(up, n, 12, |c: char| !is_lower(c));
    lemma_layout_chars(low, n, 12, |c: char| !is_upper(c));
}

/// With the case kept, the digits written are those read, letter case included.
pub proof fn lemma_preserved_case(s: Seq<char>)
    requires
        accepts(s),
    ensures
        hex_digits(
            octets_of(strip_separators(s)),
            case_of(strip_separators(s)),
            CasePolicy::Preserve,
        ) == strip_separators(s),
        forall|i: int|
            0 <= i < 12 ==> is_upper(
                #[trigger] hex_digits(
                    octets_of(strip_separators(s)),
                    case_of(strip_separators(s)),
                    CasePolicy::Preserve,
                )[i],
            ) == is_upper(strip_separators(s)[i]),
{
    lemma_digits_read_back(strip_separators(s));
}

/// Every element that a family's search finds is a match of that family.
proof fn lemma_found_are_matches(f: Family, t: Seq<char>, i: nat)
    ensures
        forall|j: int|
            0 <= j < find_from(f, t, i).len() ==> is_match(f, #[trigger] find_from(f, t, i)[j]),
    decreases t.len() - i,
{
    if i + family_len(f) <= t.len() {
        if matches_at(f, t, i as int) {
            let next = i + family_len(f);
            lemma_found_are_matches(f, t, next);
            let w = t.subrange(i as int, next as int);
            let all = seq![w] + find_from(f, t, next);
            assert forall|j: int| 0 <= j < all.len() implies is_match(f, #[trigger] all[j]) by {
                if j > 0 {
                    assert(all[j] == find_from(f, t, next)[j - 1]);
                } else {
                    assert(all[j] == w);
                }
            }
            assert(find_from(f, t, i) == all);
        } else {
            lemma_found_are_matches(f, t, i + 1);
            assert(find_from(f, t, i) == find_from(f, t, i + 1));
        }
    } else {
        assert(find_from(f, t, i).len() == 0);
    }
}

/// Family order: where the text holds one match of each family, the scan
/// gives the delimited one first, then the dotted one, then the bare one,
/// wherever each stands in the text.
pub proof fn lemma_family_order(t: Seq<char>)
    requires
        find_all(Family::Delimited, t).len() == 1,
        find_all(Family::Dotted, t).len() == 1,
        find_all(Family::Bare, t).len() == 1,
    ensures
        scan_spec(t).len() == 3,
        is_match(Family::Delimited, scan_spec(t)[0]),
        is_match(Family::Dotted, scan_spec(t)[1]),
        is_match(Family::Bare, scan_spec(t)[2]),
{
    lemma_found_are_matches(Family::Delimited, t, 0);
    lemma_found_are_matches(Family::Dotted, t, 0);
    lemma_found_are_matches(Family::Bare, t, 0);
    assert(scan_spec(t)[0] == find_all(Family::Delimited, t)[0]);
    assert(scan_spec(t)[1] == find_all(Family::Dotted, t)[0]);
    assert(scan_spec(t)[2] == find_all(Family::Bare, t)[0]);
}

} // verus!
