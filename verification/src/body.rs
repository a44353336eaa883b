//! Framing of the bodies that cross the bus, and of the decimal text a total
//! is shown as.

use vstd::prelude::*;
use vstd::string::*;

verus! {

/// The character of one decimal digit.
pub open spec fn digit_char(d: nat) -> char {
    if d == 0 { '0' }
    else if d == 1 { '1' }
    else if d == 2 { '2' }
    else if d == 3 { '3' }
    else if d == 4 { '4' }
    else if d == 5 { '5' }
    else if d == 6 { '6' }
    else if d == 7 { '7' }
    else if d == 8 { '8' }
    else { '9' }
}

/// The decimal text of `n`: most significant digit first, no leading zero,
/// and `0` for zero.
pub open spec fn decimal(n: nat) -> Seq<char>
    decreases n,
{
    if n < 10 {
        seq![digit_char(n)]
    } else {
        decimal(n / 10) + seq![digit_char(n % 10)]
    }
}

/// The `brenn.demo.total@1` body of a total: an object whose one field is
/// `total`.
pub open spec fn total_body_text(total: nat) -> Seq<char> {
    "{\"total\":"@ + decimal(total) + "}"@
}

/// The panel's retained state body: an object whose one field, `display`, is
/// the bare handle of the element the number is written to.
pub open spec fn state_body_text(display: nat) -> Seq<char> {
    "{\"display\":"@ + decimal(display) + "}"@
}

proof fn lemma_decimal_nonempty(n: nat)
    ensures
        decimal(n).len() >= 1,
        n >= 10 ==> decimal(n).len() >= 2,
    decreases n,
{
    if n >= 10 {
        lemma_decimal_nonempty(n / 10);
    }
}

/// Different numbers have different decimal texts.
pub proof fn decimal_is_injective(a: nat, b: nat)
    ensures
        decimal(a) == decimal(b) ==> a == b,
    decreases a,
{
    lemma_decimal_nonempty(a);
    lemma_decimal_nonempty(b);
    if decimal(a) == decimal(b) {
        if a >= 10 && b >= 10 {
            let (da, db) = (decimal(a), decimal(b));
            assert(da.last() == digit_char(a % 10));
            assert(db.last() == digit_char(b % 10));
            assert(a % 10 == b % 10);
            assert(da.drop_last() =~= decimal(a / 10));
            assert(db.drop_last() =~= decimal(b / 10));
            decimal_is_injective(a / 10, b / 10);
        } else if a < 10 && b < 10 {
            assert(decimal(a)[0] == digit_char(a));
            assert(decimal(b)[0] == digit_char(b));
        }
    }
}

/// The body on `total` carries its total: different totals publish different
/// bodies.
pub proof fn total_bodies_identify_their_total(a: nat, b: nat)
    ensures
        total_body_text(a) == total_body_text(b) ==> a == b,
{
    if total_body_text(a) == total_body_text(b) {
        let prefix = "{\"total\":"@;
        let suffix = "}"@;
        let (ta, tb) = (total_body_text(a), total_body_text(b));
        assert(decimal(a) =~= ta.subrange(prefix.len() as int, ta.len() - suffix.len()));
        assert(decimal(b) =~= tb.subrange(prefix.len() as int, tb.len() - suffix.len()));
        decimal_is_injective(a, b);
    }
}

fn digit_str(d: u64) -> (s: &'static str)
    requires
        d < 10,
    ensures
        s@ == seq![digit_char(d as nat)],
{
    if d == 0 {
        proof { reveal_strlit("0"); }
        "0"
    } else if d == 1 {
        proof { reveal_strlit("1"); }
        "1"
    } else if d == 2 {
        proof { reveal_strlit("2"); }
        "2"
    } else if d == 3 {
        proof { reveal_strlit("3"); }
        "3"
    } else if d == 4 {
        proof { reveal_strlit("4"); }
        "4"
    } else if d == 5 {
        proof { reveal_strlit("5"); }
        "5"
    } else if d == 6 {
        proof { reveal_strlit("6"); }
        "6"
    } else if d == 7 {
        proof { reveal_strlit("7"); }
        "7"
    } else if d == 8 {
        proof { reveal_strlit("8"); }
        "8"
    } else {
        proof { reveal_strlit("9"); }
        "9"
    }
}

/// The decimal text of `n`, as the page shows a total.
pub fn decimal_text(n: u64) -> (s: String)
    ensures
        s@ == decimal(n as nat),
    decreases n,
{
    if n < 10 {
        String::from_str(digit_str(n))
    } else {
        let mut s = decimal_text(n / 10);
        s.append(digit_str(n % 10));
        s
    }
}

/// The body the counter publishes on `total`.
pub fn total_body(total: u64) -> (b: String)
    ensures
        b@ == total_body_text(total as nat),
{
    let mut b = String::from_str("{\"total\":");
    let digits = decimal_text(total);
    b.append(digits.as_str());
    b.append("}");
    b
}

/// The body the panel stores on its `state` port.
pub fn state_body(display: u64) -> (b: String)
    ensures
        b@ == state_body_text(display as nat),
{
    let mut b = String::from_str("{\"display\":");
    let digits = decimal_text(display);
    b.append(digits.as_str());
    b.append("}");
    b
}

} // verus!
