//! Text helpers: joining, quoting and decimal rendering, each with an exact contract.

use vstd::prelude::*;
use vstd::string::*;

verus! {

/// The parts joined with `sep` between consecutive parts (no leading or trailing `sep`).
pub open spec fn join(parts: Seq<Seq<char>>, sep: Seq<char>) -> Seq<char>
    decreases parts.len(),
{
    if parts.len() == 0 {
        Seq::empty()
    } else if parts.len() == 1 {
        parts[0]
    } else {
        join(parts.drop_last(), sep) + sep + parts.last()
    }
}

/// The character views of a sequence of strings.
pub open spec fn views(v: Seq<String>) -> Seq<Seq<char>> {
    v.map_values(|s: String| s@)
}

/// Joins `parts` with `sep`.
pub fn join_strings(parts: &Vec<String>, sep: &str) -> (res: String)
    ensures
        res@ == join(views(parts@), sep@),
{
    let mut res = String::new();
    let ghost all = views(parts@);
    let mut i: usize = 0;
    while i < parts.len()
        invariant
            i <= parts.len(),
            all == views(parts@),
            res@ == join(all.take(i as int), sep@),
        decreases parts.len() - i,
    {
        if i != 0 {
            res.append(sep);
        }
        res.append(parts[i].as_str());
        assert(all.take(i + 1).drop_last() =~= all.take(i as int));
        i = i + 1;
    }
    assert(all.take(parts.len() as int) =~= all);
    res
}

/// The character of a decimal digit `d < 10`.
pub open spec fn digit_char(d: nat) -> char {
    if d == 0 { '0' } else if d == 1 { '1' } else if d == 2 { '2' } else if d == 3 { '3' }
    else if d == 4 { '4' } else if d == 5 { '5' } else if d == 6 { '6' } else if d == 7 { '7' }
    else if d == 8 { '8' } else { '9' }
}

/// The decimal rendering of `n`, without sign or leading zeros (`0` is rendered as `"0"`).
pub open spec fn decimal(n: nat) -> Seq<char>
    decreases n,
{
    if n < 10 {
        seq![digit_char(n)]
    } else {
        decimal(n / 10).push(digit_char(n % 10))
    }
}

fn digit_str(d: u128) -> (r: &'static str)
    requires
        d < 10,
    ensures
        r@ == seq![digit_char(d as nat)],
{
    if d == 0 { proof { reveal_strlit("0"); } "0" }
    else if d == 1 { proof { reveal_strlit("1"); } "1" }
    else if d == 2 { proof { reveal_strlit("2"); } "2" }
    else if d == 3 { proof { reveal_strlit("3"); } "3" }
    else if d == 4 { proof { reveal_strlit("4"); } "4" }
    else if d == 5 { proof { reveal_strlit("5"); } "5" }
    else if d == 6 { proof { reveal_strlit("6"); } "6" }
    else if d == 7 { proof { reveal_strlit("7"); } "7" }
    else if d == 8 { proof { reveal_strlit("8"); } "8" }
    else { proof { reveal_strlit("9"); } "9" }
}

/// Renders `n` in decimal.
pub fn decimal_string(n: u128) -> (res: String)
    ensures
        res@ == decimal(n as nat),
    decreases n,
{
    if n < 10 {
        String::from_str(digit_str(n))
    } else {
        let mut s = decimal_string(n / 10);
        s.append(digit_str(n % 10));
        s
    }
}

/// The character views of a sequence of string slices.
pub open spec fn strs(v: Seq<&str>) -> Seq<Seq<char>> {
    v.map_values(|s: &str| s@)
}

/// `s` between double quotes.
pub open spec fn quoted(s: Seq<char>) -> Seq<char> {
    seq!['"'] + s + seq!['"']
}

/// Every column between double quotes, separated by commas.
pub open spec fn quoted_list(columns: Seq<Seq<char>>) -> Seq<char> {
    join(columns.map_values(|c: Seq<char>| quoted(c)), ","@)
}

/// `s` between double quotes.
pub fn quote(s: &str) -> (res: String)
    ensures
        res@ == quoted(s@),
{
    proof { reveal_strlit("\""); }
    let mut res = String::from_str("\"");
    res.append(s);
    res.append("\"");
    res
}

/// Every column between double quotes, separated by commas: `"a","b"`.
pub fn quote_columns(columns: &Vec<&str>) -> (res: String)
    ensures
        res@ == quoted_list(strs(columns@)),
{
    let ghost all = strs(columns@).map_values(|c: Seq<char>| quoted(c));
    let mut res = String::new();
    let mut i: usize = 0;
    while i < columns.len()
        invariant
            i <= columns.len(),
            all == strs(columns@).map_values(|c: Seq<char>| quoted(c)),
            res@ == join(all.take(i as int), ","@),
        decreases columns.len() - i,
    {
        if i != 0 {
            res.append(",");
        }
        let q = quote(columns[i]);
        res.append(q.as_str());
        assert(all.take(i + 1).drop_last() =~= all.take(i as int));
        i = i + 1;
    }
    assert(all.take(columns.len() as int) =~= all);
    res
}

} // verus!
