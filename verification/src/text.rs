//! Text helpers shared by the renderers: views of string lists, joining with a
//! separator, and decimal numerals.

use vstd::prelude::*;
use vstd::string::*;

verus! {

/// The contents of a list of strings, each taken by its view.
pub open spec fn texts(items: Vec<String>) -> Seq<Seq<char>> {
    Seq::new(items.len() as nat, |i: int| items[i]@)
}

/// The first `n` parts, with `sep` between each two neighbours.
pub open spec fn join_prefix(parts: Seq<Seq<char>>, sep: Seq<char>, n: nat) -> Seq<char>
    decreases n,
{
    if n == 0 || n > parts.len() {
        Seq::empty()
    } else if n == 1 {
        parts[0]
    } else {
        join_prefix(parts, sep, (n - 1) as nat) + sep + parts[n - 1]
    }
}

/// All parts, with `sep` between each two neighbours.
pub open spec fn joined(parts: Seq<Seq<char>>, sep: Seq<char>) -> Seq<char> {
    join_prefix(parts, sep, parts.len())
}

/// `items` with `item` at position `at` in place of what stood there; `items`
/// itself where it has no such position.
pub open spec fn replaced(items: Seq<Seq<char>>, at: nat, item: Seq<char>) -> Seq<Seq<char>> {
    Seq::new(
        items.len(),
        |i: int|
            if i == at {
                item
            } else {
                items[i]
            },
    )
}

/// The text of one decimal digit.
pub open spec fn digit_text(d: nat) -> Seq<char> {
    if d == 0 {
        "0"@
    } else if d == 1 {
        "1"@
    } else if d == 2 {
        "2"@
    } else if d == 3 {
        "3"@
    } else if d == 4 {
        "4"@
    } else if d == 5 {
        "5"@
    } else if d == 6 {
        "6"@
    } else if d == 7 {
        "7"@
    } else if d == 8 {
        "8"@
    } else {
        "9"@
    }
}

/// The decimal numeral of `n`, most significant digit first, without leading zeros.
pub open spec fn decimal_text(n: nat) -> Seq<char>
    decreases n,
{
    if n < 10 {
        digit_text(n)
    } else {
        decimal_text(n / 10) + digit_text(n % 10)
    }
}

/// Joins the strings of `parts`, putting `sep` between each two neighbours.
pub fn join(parts: &Vec<String>, sep: &str) -> (out: String)
    ensures
        out@ == joined(texts(*parts), sep@),
{
    let mut out = String::new();
    let mut i: usize = 0;
    while i < parts.len()
        invariant
            i <= parts.len(),
            out@ == join_prefix(texts(*parts), sep@, i as nat),
        decreases parts.len() - i,
    {
        if i > 0 {
            out.append(sep);
        }
        out.append(parts[i].as_str());
        i = i + 1;
        proof {
            let all = texts(*parts);
            if i == 1 {
                assert(out@ =~= all[0]);
            } else {
                assert(out@ =~= join_prefix(all, sep@, (i - 1) as nat) + sep@ + all[i - 1]);
            }
        }
    }
    out
}

fn digit(d: usize) -> (out: &'static str)
    requires
        d < 10,
    ensures
        out@ == digit_text(d as nat),
{
    if d == 0 {
        "0"
    } else if d == 1 {
        "1"
    } else if d == 2 {
        "2"
    } else if d == 3 {
        "3"
    } else if d == 4 {
        "4"
    } else if d == 5 {
        "5"
    } else if d == 6 {
        "6"
    } else if d == 7 {
        "7"
    } else if d == 8 {
        "8"
    } else {
        "9"
    }
}

/// Writes `n` as a decimal numeral.
pub fn decimal(n: usize) -> (out: String)
    ensures
        out@ == decimal_text(n as nat),
    decreases n,
{
    if n < 10 {
        String::from_str(digit(n))
    } else {
        let mut out = decimal(n / 10);
        out.append(digit(n % 10));
        out
    }
}

} // verus!
