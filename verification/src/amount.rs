//! Exact, non-negative token amounts of arbitrary size.
//!
//! An amount counts the smallest unit of the token. It is held as limbs of
//! 32 bits, least significant first, without a leading zero limb, so that two
//! amounts of the same value are held the same way.

use vstd::prelude::*;

verus! {

/// Weight of the limb at position `n`: 2^(32 n).
pub open spec fn limb_weight(n: nat) -> nat
    decreases n,
{
    if n == 0 {
        1
    } else {
        0x1_0000_0000 * limb_weight((n - 1) as nat)
    }
}

/// The limb at position `i`, zero past the end.
pub open spec fn limb_at(limbs: Seq<u32>, i: int) -> nat {
    if 0 <= i < limbs.len() {
        limbs[i] as nat
    } else {
        0
    }
}

/// The number that the first `n` limbs denote, the least significant limb
/// first.
pub open spec fn limbs_value(limbs: Seq<u32>, n: nat) -> nat
    decreases n,
{
    if n == 0 {
        0
    } else {
        limbs_value(limbs, (n - 1) as nat) + limb_at(limbs, n - 1) * limb_weight((n - 1) as nat)
    }
}

/// Limbs that agree up to `n` denote the same number up to `n`.
proof fn lemma_value_agrees(a: Seq<u32>, b: Seq<u32>, n: nat)
    requires
        forall|i: int| 0 <= i < n ==> limb_at(a, i) == limb_at(b, i),
    ensures
        limbs_value(a, n) == limbs_value(b, n),
    decreases n,
{
    if n > 0 {
        lemma_value_agrees(a, b, (n - 1) as nat);
    }
}

/// Positions past the end add nothing.
proof fn lemma_value_past_end(a: Seq<u32>, n: nat)
    requires
        n >= a.len(),
    ensures
        limbs_value(a, n) == limbs_value(a, a.len()),
    decreases n,
{
    if n > a.len() {
        lemma_value_past_end(a, (n - 1) as nat);
        assert(limb_at(a, n - 1) * limb_weight((n - 1) as nat) == 0) by (nonlinear_arith)
            requires
                limb_at(a, n - 1) == 0,
        ;
    }
}

/// `n` limbs denote a number below the weight of position `n`.
proof fn lemma_value_below_weight(a: Seq<u32>, n: nat)
    ensures
        limbs_value(a, n) < limb_weight(n),
    decreases n,
{
    if n > 0 {
        lemma_value_below_weight(a, (n - 1) as nat);
        let w = limb_weight((n - 1) as nat);
        let l = limb_at(a, n - 1);
        assert(l * w + w <= 0x1_0000_0000 * w) by (nonlinear_arith)
            requires
                l <= 0xffff_ffff,
        ;
    }
}

/// A non-zero limb at position `n - 1` makes the number at least that
/// position's weight.
proof fn lemma_value_at_least_weight(a: Seq<u32>, n: nat)
    requires
        n > 0,
        limb_at(a, n - 1) != 0,
    ensures
        limbs_value(a, n) >= limb_weight((n - 1) as nat),
{
    let w = limb_weight((n - 1) as nat);
    let l = limb_at(a, n - 1);
    assert(l * w >= w) by (nonlinear_arith)
        requires
            l >= 1,
    ;
}

proof fn lemma_weight_grows(m: nat, n: nat)
    requires
        m <= n,
    ensures
        0 < limb_weight(m) <= limb_weight(n),
    decreases n,
{
    if n > 0 {
        if m < n {
            lemma_weight_grows(m, (n - 1) as nat);
        } else {
            lemma_weight_grows((m - 1) as nat, (n - 1) as nat);
        }
        let w = limb_weight((n - 1) as nat);
        assert(w <= 0x1_0000_0000 * w) by (nonlinear_arith)
            requires
                w > 0,
        ;
    }
}

proof fn lemma_small_weights()
    ensures
        limb_weight(0) == 1,
        limb_weight(1) == 0x1_0000_0000,
        limb_weight(2) == 0x1_0000_0000_0000_0000,
        limb_weight(3) == 0x1_0000_0000_0000_0000_0000_0000,
        limb_weight(4) == 0x1_0000_0000_0000_0000_0000_0000_0000_0000,
{
    reveal_with_fuel(limb_weight, 5);
}

/// An exact, non-negative amount of the token's smallest unit.
#[derive(Debug, PartialEq, Eq)]
pub struct Amount {
    limbs: Vec<u32>,
}

impl View for Amount {
    type V = nat;

    closed spec fn view(&self) -> nat {
        limbs_value(self.limbs@, self.limbs@.len())
    }
}

impl Clone for Amount {
    fn clone(&self) -> (r: Self)
        ensures
            r@ == self@,
            r.is_canonical(),
    {
        proof {
            use_type_invariant(self);
        }
        let limbs = self.limbs.clone();
        assert(limbs@ =~= self.limbs@);
        Amount { limbs }
    }
}

impl Amount {
    /// No leading zero limb.
    #[verifier::type_invariant]
    closed spec fn canonical(self) -> bool {
        self.limbs@.len() == 0 || self.limbs@.last() != 0
    }

    /// The amount zero.
    pub fn zero() -> (r: Amount)
        ensures
            r@ == 0,
            r.is_canonical(),
    {
        Amount { limbs: Vec::new() }
    }

    /// The amount of `units` smallest units.
    pub fn from_u128(units: u128) -> (r: Amount)
        ensures
            r@ == units,
            r.is_canonical(),
    {
        let mut limbs: Vec<u32> = Vec::new();
        let mut rest: u128 = units;
        assert(rest * limb_weight(0) == units) by (nonlinear_arith)
            requires
                rest == units,
                limb_weight(0) == 1,
        ;
        while rest > 0
            invariant
                limbs_value(limbs@, limbs@.len()) + rest * limb_weight(limbs@.len()) == units,
                rest == 0 ==> (limbs@.len() == 0 || limbs@.last() != 0),
            decreases rest,
        {
            let ghost before = limbs@;
            let low: u32 = (rest % 0x1_0000_0000) as u32;
            let high: u128 = rest / 0x1_0000_0000;
            limbs.push(low);
            proof {
                let n = before.len();
                let w = limb_weight(n);
                lemma_value_agrees(before, limbs@, n);
                assert(limb_at(limbs@, n as int) == low);
                assert(limb_weight(n + 1) == 0x1_0000_0000 * w);
                assert(low * w + high * (0x1_0000_0000 * w) == rest * w) by (nonlinear_arith)
                    requires
                        rest == low + 0x1_0000_0000 * high,
                ;
            }
            rest = high;
        }
        Amount { limbs }
    }

    /// The amount that the limbs denote, the least significant limb first.
    /// Leading zero limbs are allowed and dropped.
    pub fn from_limbs(limbs: Vec<u32>) -> (r: Amount)
        ensures
            r@ == limbs_value(limbs@, limbs@.len()),
            r.is_canonical(),
    {
        let ghost given = limbs@;
        let mut kept = limbs;
        while kept.len() > 0 && kept[kept.len() - 1] == 0
            invariant
                kept@.len() <= given.len(),
                limbs_value(kept@, kept@.len()) == limbs_value(given, given.len()),
            decreases kept@.len(),
        {
            let ghost longer = kept@;
            kept.pop();
            proof {
                lemma_value_agrees(kept@, longer, kept@.len());
                assert(limb_at(longer, kept@.len() as int) * limb_weight(kept@.len()) == 0)
                    by (nonlinear_arith)
                    requires
                        limb_at(longer, kept@.len() as int) == 0,
                ;
            }
        }
        Amount { limbs: kept }
    }

    /// The limbs that denote the amount, the least significant limb first,
    /// without a leading zero limb.
    pub fn to_limbs(&self) -> (r: Vec<u32>)
        ensures
            r@ == self.limbs(),
            limbs_value(r@, r@.len()) == self@,
    {
        let r = self.limbs.clone();
        assert(r@ =~= self.limbs@);
        r
    }

    /// The amount as a machine integer, where it fits in one.
    pub fn to_u128(&self) -> (r: Option<u128>)
        ensures
            r is Some <==> self@ <= u128::MAX,
            r is Some ==> r.unwrap() == self@,
    {
        proof {
            use_type_invariant(self);
            lemma_small_weights();
        }
        let len: usize = self.limbs.len();
        if len > 4 {
            proof {
                lemma_value_at_least_weight(self.limbs@, len as nat);
                lemma_weight_grows(4, (len - 1) as nat);
            }
            return None;
        }
        let mut total: u128 = 0;
        let mut weight: u128 = 1;
        let mut i: usize = 0;
        while i < len
            invariant
                len == self.limbs@.len(),
                len <= 4,
                i <= len,
                total == limbs_value(self.limbs@, i as nat),
                i < 4 ==> weight == limb_weight(i as nat),
            decreases len - i,
        {
            proof {
                lemma_small_weights();
                lemma_value_below_weight(self.limbs@, (i + 1) as nat);
                assert(self.limbs@[i as int] * weight <= 0xffff_ffff * weight) by (nonlinear_arith)
                    requires
                        self.limbs@[i as int] <= 0xffff_ffff,
                ;
            }
            total = total + (self.limbs[i] as u128) * weight;
            if i < 3 {
                weight = weight * 0x1_0000_0000;
            }
            i = i + 1;
        }
        Some(total)
    }

    /// Whether the amount is zero.
    pub fn is_zero(&self) -> (r: bool)
        ensures
            r == (self@ == 0),
    {
        proof {
            use_type_invariant(self);
            if self.limbs@.len() > 0 {
                lemma_value_at_least_weight(self.limbs@, self.limbs@.len());
                lemma_weight_grows(0, (self.limbs@.len() - 1) as nat);
            }
        }
        self.limbs.len() == 0
    }

    /// The sum of two amounts. It is exact: amounts have no upper limit.
    pub fn add(&self, other: &Amount) -> (r: Amount)
        ensures
            r@ == self@ + other@,
            r.is_canonical(),
    {
        proof {
            use_type_invariant(self);
            use_type_invariant(other);
        }
        let la: usize = self.limbs.len();
        let lb: usize = other.limbs.len();
        let n: usize = if la >= lb {
            la
        } else {
            lb
        };
        let mut out: Vec<u32> = Vec::new();
        let mut carry: u64 = 0;
        let mut i: usize = 0;
        while i < n
            invariant
                la == self.limbs@.len(),
                lb == other.limbs@.len(),
                i <= n,
                out@.len() == i,
                carry <= 1,
                limbs_value(out@, i as nat) + carry * limb_weight(i as nat) == limbs_value(
                    self.limbs@,
                    i as nat,
                ) + limbs_value(other.limbs@, i as nat),
                i > 0 && carry == 0 ==> out@[i - 1] >= limb_at(self.limbs@, i - 1) && out@[i - 1]
                    >= limb_at(other.limbs@, i - 1),
            decreases n - i,
        {
            let ghost before = out@;
            let ghost carry_in = carry;
            let x: u64 = if i < la {
                self.limbs[i] as u64
            } else {
                0
            };
            let y: u64 = if i < lb {
                other.limbs[i] as u64
            } else {
                0
            };
            let t: u64 = x + y + carry;
            let low: u32 = (t % 0x1_0000_0000) as u32;
            carry = t / 0x1_0000_0000;
            out.push(low);
            proof {
                let w = limb_weight(i as nat);
                lemma_value_agrees(before, out@, i as nat);
                assert(limb_at(out@, i as int) == low);
                assert(limb_weight((i + 1) as nat) == 0x1_0000_0000 * w);
                assert(low * w + carry * (0x1_0000_0000 * w) == x * w + y * w + carry_in * w)
                    by (nonlinear_arith)
                    requires
                        low + 0x1_0000_0000 * carry == x + y + carry_in,
                ;
            }
            i = i + 1;
        }
        proof {
            lemma_value_past_end(self.limbs@, n as nat);
            lemma_value_past_end(other.limbs@, n as nat);
        }
        if carry > 0 {
            let ghost before = out@;
            out.push(1);
            proof {
                lemma_value_agrees(before, out@, n as nat);
                assert(limb_at(out@, n as int) == 1);
                assert(1 * limb_weight(n as nat) == carry * limb_weight(n as nat));
            }
        }
        Amount { limbs: out }
    }
}

/// Two multiples of a weight with remainders below the weight are equal
/// only where multiples and remainders are.
proof fn lemma_digit_is_determined(x: nat, y: nat, r: nat, q: nat, w: nat)
    requires
        r + x * w == q + y * w,
        r < w,
        q < w,
    ensures
        x == y,
        r == q,
{
    if x > y {
        assert(x * w >= y * w + w) by (nonlinear_arith)
            requires
                x >= y + 1,
        ;
    } else if y > x {
        assert(y * w >= x * w + w) by (nonlinear_arith)
            requires
                y >= x + 1,
        ;
    }
}

/// Limbs that denote the same number up to `n` are the same up to `n`.
proof fn lemma_value_determines_limbs(a: Seq<u32>, b: Seq<u32>, n: nat)
    requires
        n <= a.len(),
        n <= b.len(),
        limbs_value(a, n) == limbs_value(b, n),
    ensures
        forall|i: int| 0 <= i < n ==> a[i] == b[i],
    decreases n,
{
    if n > 0 {
        let m = (n - 1) as nat;
        lemma_value_below_weight(a, m);
        lemma_value_below_weight(b, m);
        lemma_digit_is_determined(
            limb_at(a, m as int),
            limb_at(b, m as int),
            limbs_value(a, m),
            limbs_value(b, m),
            limb_weight(m),
        );
        lemma_value_determines_limbs(a, b, m);
    }
}

impl Amount {
    /// The limbs that hold the amount, least significant first.
    pub closed spec fn limbs(&self) -> Seq<u32> {
        self.limbs@
    }

    /// The amount is held without a leading zero limb. Every amount that
    /// this module hands out is.
    pub closed spec fn is_canonical(&self) -> bool {
        self.canonical()
    }

    /// An amount is held in one way only: two amounts of the same value hold
    /// the same limbs, so that comparing what is held compares the values.
    pub proof fn lemma_one_form_per_value(a: Amount, b: Amount)
        requires
            a.is_canonical(),
            b.is_canonical(),
            a@ == b@,
        ensures
            a.limbs() == b.limbs(),
    {
        let x = a.limbs@;
        let y = b.limbs@;
        if x.len() < y.len() {
            lemma_value_below_weight(x, x.len());
            lemma_value_at_least_weight(y, y.len());
            lemma_weight_grows(x.len(), (y.len() - 1) as nat);
        } else if y.len() < x.len() {
            lemma_value_below_weight(y, y.len());
            lemma_value_at_least_weight(x, x.len());
            lemma_weight_grows(y.len(), (x.len() - 1) as nat);
        } else {
            lemma_value_determines_limbs(x, y, x.len());
            assert(x =~= y);
        }
    }
}

} // verus!
