//! Decimal rendering of counters.
//!
//! Collision avoidance appends `-1`, `-2`, `-3`, ... to a file stem, so the
//! library needs the decimal digits of a counter and, for the proof that all
//! candidate names are distinct, the fact that the rendering is injective.

use vstd::prelude::*;
use vstd::arithmetic::div_mod::lemma_fundamental_div_mod;

verus! {

/// The ASCII digit for `n % 10`.
pub open spec fn dec_digit(n: nat) -> u8 {
    (48 + (n % 10)) as u8
}

/// The decimal digits of `n`, most significant first, without leading
/// zeros (except for `n == 0`, which is the single digit `0`).
pub open spec fn dec_rep(n: nat) -> Seq<u8>
    decreases n,
{
    if n < 10 {
        seq![dec_digit(n)]
    } else {
        dec_rep(n / 10).push(dec_digit(n))
    }
}

/// A decimal rendering always has at least one digit.
pub proof fn lemma_dec_rep_len(n: nat)
    ensures
        dec_rep(n).len() >= 1,
{
    if n < 10 {
        assert(dec_rep(n).len() == 1);
    } else {
        assert(dec_rep(n).len() == dec_rep(n / 10).len() + 1);
    }
}

/// Two numbers with the same decimal rendering are equal.
pub proof fn lemma_dec_rep_injective(a: nat, b: nat)
    requires
        dec_rep(a) == dec_rep(b),
    ensures
        a == b,
    decreases a,
{
    if a < 10 && b < 10 {
        assert(dec_rep(a) == seq![dec_digit(a)]);
        assert(dec_rep(b) == seq![dec_digit(b)]);
        assert(seq![dec_digit(a)][0] == dec_digit(a));
        assert(seq![dec_digit(b)][0] == dec_digit(b));
        assert(dec_digit(a) == dec_digit(b));
        assert(a % 10 == a);
        assert(b % 10 == b);
    } else if a < 10 && b >= 10 {
        lemma_dec_rep_len(b / 10);
        assert(dec_rep(b).len() >= 2);
        assert(false);
    } else if a >= 10 && b < 10 {
        lemma_dec_rep_len(a / 10);
        assert(dec_rep(a).len() >= 2);
        assert(false);
    } else {
        assert(dec_rep(a) == dec_rep(a / 10).push(dec_digit(a)));
        assert(dec_rep(b) == dec_rep(b / 10).push(dec_digit(b)));
        assert(dec_rep(a / 10).push(dec_digit(a)).last() == dec_digit(a));
        assert(dec_rep(b / 10).push(dec_digit(b)).last() == dec_digit(b));
        assert(dec_digit(a) == dec_digit(b));
        assert(a % 10 == b % 10);
        assert(dec_rep(a).drop_last() =~= dec_rep(a / 10));
        assert(dec_rep(b).drop_last() =~= dec_rep(b / 10));
        lemma_dec_rep_injective(a / 10, b / 10);
        lemma_fundamental_div_mod(a as int, 10);
        lemma_fundamental_div_mod(b as int, 10);
    }
}

/// The decimal digits of `n` as bytes.
pub fn dec_u64(n: u64) -> (r: Vec<u8>)
    ensures
        r@ == dec_rep(n as nat),
    decreases n,
{
    if n < 10 {
        let mut v: Vec<u8> = Vec::new();
        v.push(48 + n as u8);
        proof {
            assert(v@ =~= seq![dec_digit(n as nat)]);
        }
        v
    } else {
        let mut v = dec_u64(n / 10);
        v.push(48 + (n % 10) as u8);
        v
    }
}

} // verus!
