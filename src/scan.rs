use vstd::prelude::*;

use crate::text::{chars_of, hex_char, is_hex_char, string_of};

verus! {

/// The three notations that the scanner looks for, in the order it looks for them.
#[derive(Clone, Copy, Debug, PartialEq, Eq)]
pub enum Family {
    /// Six pairs of digits, all joined by `:` or all joined by `-`.
    Delimited,
    /// Three groups of four digits joined by `.`.
    Dotted,
    /// Twelve digits in a row.
    Bare,
}

/// The length of every match of a family.
pub open spec fn family_len(f: Family) -> nat {
    match f {
        Family::Delimited => 17,
        Family::Dotted => 14,
        Family::Bare => 12,
    }
}

/// What a match of family `f` holds at its position `k`.
pub open spec fn fits_at(f: Family, w: Seq<char>, k: int) -> bool {
    match f {
        Family::Delimited => if k % 3 == 2 {
            (w[2] == ':' || w[2] == '-') && w[k] == w[2]
        } else {
            is_hex_char(w[k])
        },
        Family::Dotted => if k % 5 == 4 {
            w[k] == '.'
        } else {
            is_hex_char(w[k])
        },
        Family::Bare => is_hex_char(w[k]),
    }
}

/// Whether `w` is, as a whole, a match of family `f`.
pub open spec fn is_match(f: Family, w: Seq<char>) -> bool {
    w.len() == family_len(f) && forall|k: int| 0 <= k < family_len(f) ==> #[trigger] fits_at(f, w, k)
}

/// Whether a match of family `f` starts at position `i` of `t`.
pub open spec fn matches_at(f: Family, t: Seq<char>, i: int) -> bool {
    0 <= i && i + family_len(f) <= t.len() && is_match(f, t.subrange(i, i + family_len(f)))
}

/// The matches of family `f` in `t` from position `i` on: the leftmost one,
/// then those that start after it ends.
pub open spec fn find_from(f: Family, t: Seq<char>, i: nat) -> Seq<Seq<char>>
    decreases t.len() - i,
{
    if i + family_len(f) > t.len() {
        Seq::empty()
    } else if matches_at(f, t, i as int) {
        seq![t.subrange(i as int, (i + family_len(f)) as int)] + find_from(f, t, i + family_len(f))
    } else {
        find_from(f, t, i + 1)
    }
}

/// The matches of family `f` in `t`, left to right, none overlapping.
pub open spec fn find_all(f: Family, t: Seq<char>) -> Seq<Seq<char>> {
    find_from(f, t, 0)
}

/// All candidates in `t`: every delimited match, then every dotted one, then every bare one.
pub open spec fn scan_spec(t: Seq<char>) -> Seq<Seq<char>> {
    find_all(Family::Delimited, t) + find_all(Family::Dotted, t) + find_all(Family::Bare, t)
}

/// The contents of a list of strings.
pub open spec fn views(v: Seq<String>) -> Seq<Seq<char>> {
    v.map_values(|s: String| s@)
}

fn length_of(f: Family) -> (r: usize)
    ensures
        r == family_len(f),
{
    match f {
        Family::Delimited => 17,
        Family::Dotted => 14,
        Family::Bare => 12,
    }
}

fn fits(f: Family, t: &Vec<char>, i: usize, k: usize) -> (r: bool)
    requires
        i + family_len(f) <= t@.len(),
        k < family_len(f),
    ensures
        r == fits_at(f, t@.subrange(i as int, i + family_len(f)), k as int),
{
    let n = t.len();
    assert(i + k < n && i + 2 < n);
    let ghost w = t@.subrange(i as int, i + family_len(f));
    assert(w[k as int] == t@[i + k]);
    assert(w[2] == t@[i + 2]);
    match f {
        Family::Delimited => if k % 3 == 2 {
            (t[i + 2] == ':' || t[i + 2] == '-') && t[i + k] == t[i + 2]
        } else {
            hex_char(t[i + k])
        },
        Family::Dotted => if k % 5 == 4 {
            t[i + k] == '.'
        } else {
            hex_char(t[i + k])
        },
        Family::Bare => hex_char(t[i + k]),
    }
}

fn match_at(f: Family, t: &Vec<char>, i: usize) -> (r: bool)
    requires
        i + family_len(f) <= t@.len(),
    ensures
        r == matches_at(f, t@, i as int),
{
    let len = length_of(f);
    for k in 0..len
        invariant
            len == family_len(f),
            i + family_len(f) <= t@.len(),
            forall|j: int|
                0 <= j < k ==> #[trigger] fits_at(f, t@.subrange(i as int, i + family_len(f)), j),
    {
        if !fits(f, t, i, k) {
            return false;
        }
    }
    true
}

fn copy_window(t: &Vec<char>, i: usize, len: usize) -> (r: Vec<char>)
    requires
        i + len <= t@.len(),
    ensures
        r@ == t@.subrange(i as int, i + len),
{
    let n = t.len();
    let mut r: Vec<char> = Vec::new();
    for k in 0..len
        invariant
            n == t@.len(),
            i + len <= t@.len(),
            r@ == t@.subrange(i as int, i + k),
    {
        r.push(t[i + k]);
        assert(r@ =~= t@.subrange(i as int, i + k + 1));
    }
    r
}

/// Appends to `out` the matches of family `f` in `t`.
fn collect_family(f: Family, t: &Vec<char>, out: &mut Vec<String>)
    ensures
        views(final(out)@) == views(old(out)@) + find_all(f, t@),
{
    let len = length_of(f);
    let ghost start = views(out@);
    let mut i: usize = 0;
    while i <= t.len() && len <= t.len() - i
        invariant
            len == family_len(f),
            i <= t@.len() + 1,
            start + find_all(f, t@) == views(out@) + find_from(f, t@, i as nat),
        decreases t@.len() + 1 - i,
    {
        if match_at(f, t, i) {
            let w = copy_window(t, i, len);
            let s = string_of(&w);
            let ghost before = views(out@);
            out.push(s);
            assert(views(out@) =~= before.push(s@));
            assert(before + find_from(f, t@, i as nat) =~= views(out@) + find_from(
                f,
                t@,
                (i + len) as nat,
            ));
            i = i + len;
        } else {
            i = i + 1;
        }
    }
    assert(find_from(f, t@, i as nat) =~= Seq::empty());
    assert(views(out@) + find_from(f, t@, i as nat) =~= views(out@));
}

/// Every substring of `text` that is written like an address: first all
/// colon- or dash-separated ones, then all dot-grouped ones, then all bare
/// ones, each family from left to right.
pub fn find_mac_addresses(text: &str) -> (r: Vec<String>)
    ensures
        views(r@) == scan_spec(text@),
{
    let t = chars_of(text);
    let mut r: Vec<String> = Vec::new();
    assert(views(r@) =~= Seq::empty());
    collect_family(Family::Delimited, &t, &mut r);
    collect_family(Family::Dotted, &t, &mut r);
    collect_family(Family::Bare, &t, &mut r);
    assert(views(r@) =~= scan_spec(text@));
    r
}

} // verus!
