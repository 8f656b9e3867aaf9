//! Deterministic name construction: decimal rendering of indices and the
//! positional naming scheme for extend attributes, join aliases, node
//! identifiers and sink paths. The serializer template (built separately)
//! must reference exactly the names synthesized here, so every name has an
//! exact specification.

use vstd::prelude::*;
use vstd::string::StringExecFns;

verus! {

/// The decimal digit character for a value below ten.
pub open spec fn digit_char(d: nat) -> char {
    if d == 0 {
        '0'
    } else if d == 1 {
        '1'
    } else if d == 2 {
        '2'
    } else if d == 3 {
        '3'
    } else if d == 4 {
        '4'
    } else if d == 5 {
        '5'
    } else if d == 6 {
        '6'
    } else if d == 7 {
        '7'
    } else if d == 8 {
        '8'
    } else {
        '9'
    }
}

/// The decimal rendering of a natural number, most significant digit first.
pub open spec fn dec_digits(n: nat) -> Seq<char>
    decreases n,
{
    if n < 10 {
        seq![digit_char(n)]
    } else {
        dec_digits(n / 10).push(digit_char(n % 10))
    }
}

/// Appends one decimal digit character to `s`.
fn push_digit(s: &mut String, d: usize)
    requires
        d < 10,
    ensures
        final(s)@ == old(s)@ + seq![digit_char(d as nat)],
{
    proof {
        reveal_strlit("0");
        reveal_strlit("1");
        reveal_strlit("2");
        reveal_strlit("3");
        reveal_strlit("4");
        reveal_strlit("5");
        reveal_strlit("6");
        reveal_strlit("7");
        reveal_strlit("8");
        reveal_strlit("9");
    }
    if d == 0 {
        s.append("0");
        assert(("0")@ =~= seq![digit_char(0)]);
    } else if d == 1 {
        s.append("1");
        assert(("1")@ =~= seq![digit_char(1)]);
    } else if d == 2 {
        s.append("2");
        assert(("2")@ =~= seq![digit_char(2)]);
    } else if d == 3 {
        s.append("3");
        assert(("3")@ =~= seq![digit_char(3)]);
    } else if d == 4 {
        s.append("4");
        assert(("4")@ =~= seq![digit_char(4)]);
    } else if d == 5 {
        s.append("5");
        assert(("5")@ =~= seq![digit_char(5)]);
    } else if d == 6 {
        s.append("6");
        assert(("6")@ =~= seq![digit_char(6)]);
    } else if d == 7 {
        s.append("7");
        assert(("7")@ =~= seq![digit_char(7)]);
    } else if d == 8 {
        s.append("8");
        assert(("8")@ =~= seq![digit_char(8)]);
    } else {
        s.append("9");
        assert(("9")@ =~= seq![digit_char(9)]);
    }
}

/// Appends the decimal rendering of `n` to `s`.
pub fn push_usize(s: &mut String, n: usize)
    ensures
        final(s)@ == old(s)@ + dec_digits(n as nat),
    decreases n,
{
    if n >= 10 {
        push_usize(s, n / 10);
    }
    push_digit(s, n % 10);
    proof {
        if n < 10 {
            assert(s@ =~= old(s)@ + dec_digits(n as nat));
        } else {
            assert(dec_digits(n as nat) == dec_digits(n as nat / 10).push(
                digit_char(n as nat % 10),
            ));
            assert(s@ =~= old(s)@ + dec_digits(n as nat));
        }
    }
}

/// The decimal rendering of `n` as an owned string.
pub fn usize_string(n: usize) -> (r: String)
    ensures
        r@ == dec_digits(n as nat),
{
    let mut r = String::new();
    push_usize(&mut r, n);
    proof {
        assert(r@ =~= dec_digits(n as nat));
    }
    r
}

/// Per-unit attribute prefix: `tm_<i>`.
pub open spec fn tm_prefix(i: nat) -> Seq<char> {
    ("tm_")@ + dec_digits(i)
}

pub fn tm_prefix_string(i: usize) -> (r: String)
    ensures
        r@ == tm_prefix(i as nat),
{
    let mut r = String::from_str("tm_");
    push_usize(&mut r, i);
    r
}

/// Extend attribute for the subject map: `<prefix>_sm`.
pub open spec fn sm_attr(prefix: Seq<char>) -> Seq<char> {
    prefix + ("_sm")@
}

pub fn sm_attr_string(prefix: &str) -> (r: String)
    ensures
        r@ == sm_attr(prefix@),
{
    let mut r = prefix.to_owned();
    r.append("_sm");
    r
}

/// Extend attribute for a predicate map: `<prefix>_p<pom>-<p>`.
pub open spec fn pm_attr(prefix: Seq<char>, pom: nat, p: nat) -> Seq<char> {
    prefix + ("_p")@ + dec_digits(pom) + ("-")@ + dec_digits(p)
}

pub fn pm_attr_string(prefix: &str, pom: usize, p: usize) -> (r: String)
    ensures
        r@ == pm_attr(prefix@, pom as nat, p as nat),
{
    let mut r = prefix.to_owned();
    r.append("_p");
    push_usize(&mut r, pom);
    r.append("-");
    push_usize(&mut r, p);
    r
}

/// Extend attribute for an object map: `<prefix>_o<pom>-<o>`.
pub open spec fn om_attr(prefix: Seq<char>, pom: nat, o: nat) -> Seq<char> {
    prefix + ("_o")@ + dec_digits(pom) + ("-")@ + dec_digits(o)
}

pub fn om_attr_string(prefix: &str, pom: usize, o: usize) -> (r: String)
    ensures
        r@ == om_attr(prefix@, pom as nat, o as nat),
{
    let mut r = prefix.to_owned();
    r.append("_o");
    push_usize(&mut r, pom);
    r.append("-");
    push_usize(&mut r, o);
    r
}

/// Join alias for the parent unit with sequence index `i`: `join_<i>`.
/// Stable across translations of the same document so that join aliases are
/// reproducible.
pub open spec fn join_alias(i: nat) -> Seq<char> {
    ("join_")@ + dec_digits(i)
}

pub fn join_alias_string(i: usize) -> (r: String)
    ensures
        r@ == join_alias(i as nat),
{
    let mut r = String::from_str("join_");
    push_usize(&mut r, i);
    r
}

/// Sink file path for the unit with sequence index `i`: `<i>_output.nt`.
pub open spec fn sink_path(i: nat) -> Seq<char> {
    dec_digits(i) + ("_output.nt")@
}

pub fn sink_path_string(i: usize) -> (r: String)
    ensures
        r@ == sink_path(i as nat),
{
    let mut r = usize_string(i);
    r.append("_output.nt");
    r
}

/// Graph node identifier: `<prefix>_<n>` where `n` is the node count at the
/// time of insertion.
pub open spec fn node_id(prefix: Seq<char>, n: nat) -> Seq<char> {
    prefix + ("_")@ + dec_digits(n)
}

pub fn node_id_string(prefix: &str, n: usize) -> (r: String)
    ensures
        r@ == node_id(prefix@, n as nat),
{
    let mut r = prefix.to_owned();
    r.append("_");
    push_usize(&mut r, n);
    r
}

} // verus!
