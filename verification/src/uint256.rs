//! Unsigned 256-bit integers.
//!
//! A [`Uint256`] holds its value as four 64-bit limbs. The arithmetic on it is
//! done by `alloy_primitives::U256` (the type `ruint::Uint<256, 4>`), reached
//! through `stylus_sdk`. Each operation that the ledger needs has one small
//! function at the end of this file, which hands the limbs over with
//! `U256::from_limbs` and takes those of the result back with
//! `U256::into_limbs`. What these functions promise is taken on trust from the
//! arithmetic library; everything else here is proved.

use vstd::arithmetic::div_mod::lemma_fundamental_div_mod_converse;
use vstd::prelude::*;

verus! {

/// The remainder of `x` by `m`, for an `x` that lies within one `m` of the
/// range from zero to `m`.
pub(crate) proof fn lemma_mod_window(x: int, m: int)
    requires
        m > 0,
        -m <= x < 2 * m,
    ensures
        x % m == if x < 0 {
            x + m
        } else if x < m {
            x
        } else {
            x - m
        },
{
    if x < 0 {
        lemma_fundamental_div_mod_converse(x, m, -1, x + m);
    } else if x < m {
        lemma_fundamental_div_mod_converse(x, m, 0, x);
    } else {
        lemma_fundamental_div_mod_converse(x, m, 1, x - m);
    }
}

/// A number written as a low part below `b` and a high part times `b` is
/// written so in one way only.
pub(crate) proof fn lemma_split_unique(x0: int, x1: int, y0: int, y1: int, b: int)
    requires
        0 <= x0 < b,
        0 <= y0 < b,
        x0 + b * x1 == y0 + b * y1,
    ensures
        x0 == y0,
        x1 == y1,
{
    assert(x1 == y1) by (nonlinear_arith)
        requires
            0 <= x0 < b,
            0 <= y0 < b,
            x0 + b * x1 == y0 + b * y1,
    {
        if x1 > y1 {
            assert(b * (x1 - y1) >= b);
        }
        if x1 < y1 {
            assert(b * (y1 - x1) >= b);
        }
    }
}

/// The number of values a 256-bit word can take, `2^256`.
pub open spec fn modulus() -> nat {
    0x1_0000_0000_0000_0000_0000_0000_0000_0000_0000_0000_0000_0000_0000_0000_0000_0000nat
}

/// An unsigned 256-bit integer, held as four 64-bit limbs, least significant
/// first.
#[derive(Clone, Copy, Debug, PartialEq, Eq)]
pub struct Uint256 {
    pub limbs: [u64; 4],
}

impl View for Uint256 {
    type V = nat;

    /// The number that the limbs spell in base `2^64`.
    open spec fn view(&self) -> nat {
        (self.limbs[0] as nat) + (self.limbs[1] as nat) * 0x1_0000_0000_0000_0000nat
            + (self.limbs[2] as nat) * 0x1_0000_0000_0000_0000_0000_0000_0000_0000nat
            + (self.limbs[3] as nat)
            * 0x1_0000_0000_0000_0000_0000_0000_0000_0000_0000_0000_0000_0000nat
    }
}

/// The character that stands for the digit `d`, for `d` below ten.
pub open spec fn digit_char(d: nat) -> char {
    seq!['0', '1', '2', '3', '4', '5', '6', '7', '8', '9'][d as int]
}

/// The decimal numeral of `n`: its digits, most significant first, without
/// leading zeros; `"0"` for zero.
pub open spec fn decimal_digits(n: nat) -> Seq<char>
    decreases n,
{
    if n < 10 {
        seq![digit_char(n)]
    } else {
        decimal_digits(n / 10).push(digit_char(n % 10))
    }
}

impl Uint256 {
    /// The 256-bit integer with the value of `n`.
    pub fn from_u64(n: u64) -> (r: Uint256)
        ensures
            r@ == n,
    {
        Uint256 { limbs: [n, 0, 0, 0] }
    }

    /// The 256-bit integer with the given limbs, least significant first.
    pub fn from_limbs(limbs: [u64; 4]) -> (r: Uint256)
        ensures
            r.limbs == limbs,
    {
        Uint256 { limbs }
    }

    /// Whether the value is zero.
    pub fn is_zero(&self) -> (r: bool)
        ensures
            r == (self@ == 0),
    {
        self.limbs[0] == 0 && self.limbs[1] == 0 && self.limbs[2] == 0 && self.limbs[3] == 0
    }

    /// Every value lies below `2^256`.
    pub proof fn lemma_view_bound(self)
        ensures
            self@ < modulus(),
    {
    }

    /// Two integers with the same value are the same.
    pub proof fn lemma_view_injective(self, other: Uint256)
        requires
            self@ == other@,
        ensures
            self == other,
    {
        let b: int = 0x1_0000_0000_0000_0000int;
        let (a0, a1, a2, a3) = (
            self.limbs[0] as int,
            self.limbs[1] as int,
            self.limbs[2] as int,
            self.limbs[3] as int,
        );
        let (c0, c1, c2, c3) = (
            other.limbs[0] as int,
            other.limbs[1] as int,
            other.limbs[2] as int,
            other.limbs[3] as int,
        );
        lemma_split_unique(a0, a1 + b * (a2 + b * a3), c0, c1 + b * (c2 + b * c3), b);
        lemma_split_unique(a1, a2 + b * a3, c1, c2 + b * c3, b);
        lemma_split_unique(a2, a3, c2, c3, b);
        assert(self.limbs =~= other.limbs);
    }
}

/// Calls `<U256 as Add>::add`, the operator `+` of `U256`.
///
/// Trusted: the operator is `Uint::wrapping_add`, so the result is the sum
/// reduced modulo `2^256`, and there is no panic on overflow.
#[verifier::external_body]
pub(crate) fn wrapping_add(a: Uint256, b: Uint256) -> (r: Uint256)
    ensures
        r@ == (a@ + b@) % modulus(),
{
    let sum = stylus_sdk::alloy_primitives::U256::from_limbs(a.limbs)
        + stylus_sdk::alloy_primitives::U256::from_limbs(b.limbs);
    Uint256 { limbs: sum.into_limbs() }
}

/// Calls `<U256 as Sub>::sub`, the operator `-` of `U256`.
///
/// Trusted: the operator is `Uint::wrapping_sub`, so the result is the
/// difference reduced modulo `2^256` to a value from zero up, and there is no
/// panic where `b` exceeds `a`.
#[verifier::external_body]
pub(crate) fn wrapping_sub(a: Uint256, b: Uint256) -> (r: Uint256)
    ensures
        r@ == (a@ - b@) % (modulus() as int),
{
    let difference = stylus_sdk::alloy_primitives::U256::from_limbs(a.limbs)
        - stylus_sdk::alloy_primitives::U256::from_limbs(b.limbs);
    Uint256 { limbs: difference.into_limbs() }
}

/// Calls `<U256 as Rem>::rem`, the operator `%` of `U256`.
///
/// Trusted: the operator is `Uint::wrapping_rem`, so the result is the
/// remainder of the division of `a` by `b`. It panics on a divisor of zero,
/// which the precondition rules out.
#[verifier::external_body]
pub(crate) fn remainder(a: Uint256, b: Uint256) -> (r: Uint256)
    requires
        b@ != 0,
    ensures
        r@ == a@ % b@,
{
    let rest = stylus_sdk::alloy_primitives::U256::from_limbs(a.limbs)
        % stylus_sdk::alloy_primitives::U256::from_limbs(b.limbs);
    Uint256 { limbs: rest.into_limbs() }
}

/// Calls `<U256 as PartialOrd>::gt`, the operator `>` of `U256`.
///
/// Trusted: `U256` orders its values as the numbers they stand for, going
/// through the limbs from the most significant one down.
#[verifier::external_body]
pub(crate) fn greater_than(a: Uint256, b: Uint256) -> (r: bool)
    ensures
        r == (a@ > b@),
{
    stylus_sdk::alloy_primitives::U256::from_limbs(a.limbs)
        > stylus_sdk::alloy_primitives::U256::from_limbs(b.limbs)
}

/// Calls `<U256 as Display>::fmt`, through `format!` with `{}`.
///
/// Trusted: `U256` prints itself as its decimal numeral, without sign, padding
/// or leading zeros, and zero as `0`.
#[verifier::external_body]
pub(crate) fn to_decimal(a: Uint256) -> (r: String)
    ensures
        r@ == decimal_digits(a@),
{
    format!("{}", stylus_sdk::alloy_primitives::U256::from_limbs(a.limbs))
}

} // verus!
