//! Arbitrary-precision natural numbers, just enough of them to keep the
//! treemap's free part exactly and to compare costs: addition,
//! multiplication, comparison and dropping leading zero limbs.
//!
//! A number is a little-endian sequence of 32-bit limbs; leading zero limbs
//! are allowed, so a value has many representations.
use vstd::prelude::*;

verus! {

/// The limb base, 2^32.
pub open spec fn base() -> nat {
    0x1_0000_0000nat
}

/// base() raised to the power `n`.
pub open spec fn base_pow(n: nat) -> nat
    decreases n,
{
    if n == 0 {
        1
    } else {
        base() * base_pow((n - 1) as nat)
    }
}

/// Limb `i` of `s`, reading missing limbs as zero.
pub open spec fn limb(s: Seq<u32>, i: int) -> nat {
    if 0 <= i < s.len() {
        s[i] as nat
    } else {
        0
    }
}

/// Value of the lowest `n` limbs of `s`.
pub open spec fn val_upto(s: Seq<u32>, n: nat) -> nat
    decreases n,
{
    if n == 0 {
        0
    } else {
        val_upto(s, (n - 1) as nat) + limb(s, n - 1) * base_pow((n - 1) as nat)
    }
}

/// The number that the limbs `s` stand for.
pub open spec fn limbs_val(s: Seq<u32>) -> nat {
    val_upto(s, s.len())
}

pub struct BigNat {
    pub limbs: Vec<u32>,
}

impl BigNat {
    pub open spec fn value(&self) -> nat {
        limbs_val(self.limbs@)
    }
}

proof fn lemma_base_pow_pos(n: nat)
    ensures
        base_pow(n) >= 1,
    decreases n,
{
    if n > 0 {
        lemma_base_pow_pos((n - 1) as nat);
        assert(base() * base_pow((n - 1) as nat) >= base_pow((n - 1) as nat)) by (nonlinear_arith)
            requires
                base_pow((n - 1) as nat) >= 1,
        ;
    }
}

proof fn lemma_base_pow_add(a: nat, b: nat)
    ensures
        base_pow(a + b) == base_pow(a) * base_pow(b),
    decreases a,
{
    if a == 0 {
        assert(base_pow(0) == 1);
        assert(a + b == b);
    } else {
        let a1 = (a - 1) as nat;
        lemma_base_pow_add(a1, b);
        assert(a + b - 1 == a1 + b);
        let x = base_pow(a1);
        let y = base_pow(b);
        assert(base_pow(a + b) == base() * base_pow(a1 + b));
        assert(base_pow(a) == base() * x);
        assert(base() * (x * y) == (base() * x) * y) by (nonlinear_arith);
    }
}

/// Only the limbs below `n` matter to `val_upto(_, n)`.
proof fn lemma_val_upto_agree(s1: Seq<u32>, s2: Seq<u32>, n: nat)
    requires
        forall|i: int| 0 <= i < n ==> limb(s1, i) == limb(s2, i),
    ensures
        val_upto(s1, n) == val_upto(s2, n),
    decreases n,
{
    if n > 0 {
        lemma_val_upto_agree(s1, s2, (n - 1) as nat);
        assert(limb(s1, n - 1) == limb(s2, n - 1));
    }
}

/// Limbs beyond the length are zero, so they add nothing.
proof fn lemma_val_upto_beyond(s: Seq<u32>, n: nat)
    requires
        n >= s.len(),
    ensures
        val_upto(s, n) == limbs_val(s),
    decreases n,
{
    if n > s.len() {
        lemma_val_upto_beyond(s, (n - 1) as nat);
    }
}

/// The lowest `n` limbs stand for less than base^n.
proof fn lemma_val_upto_bound(s: Seq<u32>, n: nat)
    ensures
        val_upto(s, n) < base_pow(n),
    decreases n,
{
    if n > 0 {
        let m = (n - 1) as nat;
        lemma_val_upto_bound(s, m);
        let d = limb(s, m as int);
        assert(d <= base() - 1);
        assert(val_upto(s, m) + d * base_pow(m) < base() * base_pow(m)) by (nonlinear_arith)
            requires
                val_upto(s, m) < base_pow(m),
                d <= base() - 1,
        ;
    }
}

/// Prepending `k` zero limbs multiplies by base^k.
proof fn lemma_val_shift(x: Seq<u32>, k: nat, r: Seq<u32>, n: nat)
    requires
        r.len() == k + x.len(),
        forall|i: int| 0 <= i < k ==> r[i] == 0,
        forall|i: int| 0 <= i < x.len() ==> r[k + i] == x[i],
        n <= x.len(),
    ensures
        val_upto(r, k + n) == val_upto(x, n) * base_pow(k),
    decreases n,
{
    if n == 0 {
        lemma_val_upto_zero_prefix(r, k);
        assert(val_upto(x, 0) == 0);
    } else {
        let m = (n - 1) as nat;
        lemma_val_shift(x, k, r, m);
        let km = k + m;
        assert(k + n - 1 == km);
        assert(val_upto(r, k + n) == val_upto(r, km) + limb(r, km as int) * base_pow(km));
        assert(val_upto(x, n) == val_upto(x, m) + limb(x, m as int) * base_pow(m));
        assert(r[km as int] == x[m as int]);
        assert(limb(r, km as int) == limb(x, m as int));
        lemma_base_pow_add(k, m);
        let vx = val_upto(x, m);
        let l = limb(x, m as int);
        let bk = base_pow(k);
        let bm = base_pow(m);
        assert(vx * bk + l * (bk * bm) == (vx + l * bm) * bk) by (nonlinear_arith);
    }
}

proof fn lemma_val_upto_zero_prefix(r: Seq<u32>, k: nat)
    requires
        k <= r.len(),
        forall|i: int| 0 <= i < k ==> r[i] == 0,
    ensures
        val_upto(r, k) == 0,
    decreases k,
{
    if k > 0 {
        lemma_val_upto_zero_prefix(r, (k - 1) as nat);
    }
}

/// Splits `t < base^2` into its low limb and its carry.
proof fn lemma_split_limb(t: nat, p: nat)
    ensures
        (t % base()) * p + (t / base()) * (base() * p) == t * p,
{
    assert((t % base()) * p + (t / base()) * (base() * p) == t * p) by (nonlinear_arith)
        requires
            t == (t / base()) * base() + t % base(),
    {
    }
}

impl BigNat {
    pub fn from_u64(x: u64) -> (r: BigNat)
        ensures
            r.value() == x,
            r.limbs@.len() == 2,
    {
        let lo = (x % 0x1_0000_0000) as u32;
        let hi = (x / 0x1_0000_0000) as u32;
        let mut v: Vec<u32> = Vec::new();
        v.push(lo);
        v.push(hi);
        proof {
            assert(limb(v@, 0) == lo);
            assert(limb(v@, 1) == hi);
            assert(base_pow(0) == 1);
            assert(val_upto(v@, 0) == 0);
            assert(v@[0] == lo);
            assert(val_upto(v@, 1) == val_upto(v@, 0) + limb(v@, 0) * base_pow(0));
            assert(val_upto(v@, 1) == lo);
            assert(base_pow(1) == base());
            assert(val_upto(v@, 2) == lo + hi * base());
            assert(x == hi * base() + lo);
        }
        BigNat { limbs: v }
    }

    /// The product of `self` and one limb.
    fn mul_limb(&self, d: u32) -> (r: BigNat)
        ensures
            r.value() == self.value() * d,
            r.limbs@.len() == self.limbs@.len() + 1,
    {
        let n = self.limbs.len();
        let mut out: Vec<u32> = Vec::new();
        let mut carry: u64 = 0;
        let mut i: usize = 0;
        proof {
            assert(val_upto(self.limbs@, 0) == 0);
            assert(limbs_val(out@) == 0);
        }
        while i < n
            invariant
                n == self.limbs@.len(),
                i <= n,
                out@.len() == i,
                carry < base(),
                limbs_val(out@) + carry * base_pow(i as nat) == val_upto(self.limbs@, i as nat) * d,
            decreases n - i,
        {
            let a = self.limbs[i];
            proof {
                assert(a * d <= (base() - 1) * (base() - 1)) by (nonlinear_arith)
                    requires
                        a < base(),
                        d < base(),
                ;
            }
            let t: u64 = (a as u64) * (d as u64) + carry;
            let lo = (t % 0x1_0000_0000) as u32;
            let ghost old_out = out@;
            out.push(lo);
            proof {
                let p = base_pow(i as nat);
                lemma_val_upto_agree(old_out, out@, i as nat);
                assert(limb(out@, i as int) == lo);
                assert(limbs_val(out@) == limbs_val(old_out) + lo * p);
                assert(limb(self.limbs@, i as int) == a);
                assert(val_upto(self.limbs@, (i + 1) as nat) == val_upto(self.limbs@, i as nat) + a
                    * p);
                lemma_split_limb(t as nat, p);
                assert(base_pow((i + 1) as nat) == base() * p);
                assert((val_upto(self.limbs@, i as nat) + a * p) * d == val_upto(
                    self.limbs@,
                    i as nat,
                ) * d + (a * d) * p) by (nonlinear_arith);
                assert(t == a * d + carry);
                assert((a * d + carry) * p == (a * d) * p + carry * p) by (nonlinear_arith);
            }
            carry = t / 0x1_0000_0000;
            i = i + 1;
        }
        let ghost before = out@;
        out.push(carry as u32);
        proof {
            lemma_val_upto_agree(before, out@, n as nat);
            lemma_val_upto_beyond(self.limbs@, n as nat);
            assert(limb(out@, n as int) == carry);
        }
        BigNat { limbs: out }
    }

    /// `self` times base^k.
    fn shifted(&self, k: usize) -> (r: BigNat)
        ensures
            r.value() == self.value() * base_pow(k as nat),
            r.limbs@.len() == k + self.limbs@.len(),
    {
        let mut out: Vec<u32> = Vec::new();
        let mut i: usize = 0;
        while i < k
            invariant
                i <= k,
                out@.len() == i,
                forall|j: int| 0 <= j < i ==> out@[j] == 0,
            decreases k - i,
        {
            out.push(0);
            i = i + 1;
        }
        let n = self.limbs.len();
        let mut j: usize = 0;
        while j < n
            invariant
                n == self.limbs@.len(),
                j <= n,
                out@.len() == k + j,
                forall|q: int| 0 <= q < k ==> out@[q] == 0,
                forall|q: int| 0 <= q < j ==> out@[k + q] == self.limbs@[q],
            decreases n - j,
        {
            out.push(self.limbs[j]);
            j = j + 1;
        }
        proof {
            lemma_val_shift(self.limbs@, k as nat, out@, n as nat);
        }
        BigNat { limbs: out }
    }

    pub fn add(&self, other: &BigNat) -> (r: BigNat)
        ensures
            r.value() == self.value() + other.value(),
            r.limbs@.len() == (if self.limbs@.len() >= other.limbs@.len() {
                self.limbs@.len()
            } else {
                other.limbs@.len()
            }) + 1,
    {
        let la = self.limbs.len();
        let lb = other.limbs.len();
        let n = if la >= lb {
            la
        } else {
            lb
        };
        let mut out: Vec<u32> = Vec::new();
        let mut carry: u64 = 0;
        let mut i: usize = 0;
        while i < n
            invariant
                la == self.limbs@.len(),
                lb == other.limbs@.len(),
                n >= la,
                n >= lb,
                i <= n,
                out@.len() == i,
                carry <= 1,
                limbs_val(out@) + carry * base_pow(i as nat) == val_upto(self.limbs@, i as nat)
                    + val_upto(other.limbs@, i as nat),
            decreases n - i,
        {
            let a: u64 = if i < la {
                self.limbs[i] as u64
            } else {
                0
            };
            let b: u64 = if i < lb {
                other.limbs[i] as u64
            } else {
                0
            };
            let t: u64 = a + b + carry;
            let lo = (t % 0x1_0000_0000) as u32;
            let ghost old_out = out@;
            out.push(lo);
            proof {
                let p = base_pow(i as nat);
                lemma_val_upto_agree(old_out, out@, i as nat);
                assert(limb(out@, i as int) == lo);
                assert(limb(self.limbs@, i as int) == a);
                assert(limb(other.limbs@, i as int) == b);
                lemma_split_limb(t as nat, p);
                assert(base_pow((i + 1) as nat) == base() * p);
                assert((a + b + carry) * p == a * p + b * p + carry * p) by (nonlinear_arith);
            }
            carry = t / 0x1_0000_0000;
            i = i + 1;
        }
        let ghost before = out@;
        out.push(carry as u32);
        proof {
            lemma_val_upto_agree(before, out@, n as nat);
            lemma_val_upto_beyond(self.limbs@, n as nat);
            lemma_val_upto_beyond(other.limbs@, n as nat);
            assert(limb(out@, n as int) == carry);
        }
        BigNat { limbs: out }
    }

    pub fn mul(&self, other: &BigNat) -> (r: BigNat)
        ensures
            r.value() == self.value() * other.value(),
            r.limbs@.len() <= 2 * self.limbs@.len() + other.limbs@.len() + 2,
    {
        let n = self.limbs.len();
        let mut acc = BigNat::from_u64(0);
        let mut i: usize = 0;
        proof {
            assert(val_upto(self.limbs@, 0) == 0);
        }
        while i < n
            invariant
                n == self.limbs@.len(),
                i <= n,
                acc.limbs@.len() <= 2 + other.limbs@.len() + 2 * i,
                acc.value() == val_upto(self.limbs@, i as nat) * other.value(),
            decreases n - i,
        {
            let part = other.mul_limb(self.limbs[i]);
            let shifted = part.shifted(i);
            proof {
                let p = base_pow(i as nat);
                let d = self.limbs@[i as int] as nat;
                assert(limb(self.limbs@, i as int) == d);
                assert((val_upto(self.limbs@, i as nat) + d * p) * other.value() == val_upto(
                    self.limbs@,
                    i as nat,
                ) * other.value() + other.value() * d * p) by (nonlinear_arith);
            }
            acc = acc.add(&shifted);
            i = i + 1;
        }
        proof {
            lemma_val_upto_beyond(self.limbs@, n as nat);
        }
        acc
    }

    /// The same number without its leading zero limbs.
    pub fn trimmed(&self) -> (r: BigNat)
        ensures
            r.value() == self.value(),
            r.limbs@.len() <= self.limbs@.len(),
    {
        let n = self.limbs.len();
        let mut k: usize = n;
        while k > 0 && self.limbs[k - 1] == 0
            invariant
                n == self.limbs@.len(),
                k <= n,
                val_upto(self.limbs@, k as nat) == limbs_val(self.limbs@),
            decreases k,
        {
            proof {
                let m = (k - 1) as nat;
                assert(limb(self.limbs@, m as int) == 0);
                assert(val_upto(self.limbs@, k as nat) == val_upto(self.limbs@, m) + limb(
                    self.limbs@,
                    m as int,
                ) * base_pow(m));
                assert(0 * base_pow(m) == 0);
            }
            k = k - 1;
        }
        let mut out: Vec<u32> = Vec::new();
        let mut j: usize = 0;
        while j < k
            invariant
                k <= n,
                n == self.limbs@.len(),
                j <= k,
                out@.len() == j,
                forall|i: int| 0 <= i < j ==> out@[i] == self.limbs@[i],
            decreases k - j,
        {
            out.push(self.limbs[j]);
            j = j + 1;
        }
        proof {
            assert forall|i: int| 0 <= i < k implies limb(out@, i) == limb(self.limbs@, i) by {}
            lemma_val_upto_agree(out@, self.limbs@, k as nat);
        }
        BigNat { limbs: out }
    }

    /// Whether `self <= other`.
    pub fn le(&self, other: &BigNat) -> (r: bool)
        ensures
            r == (self.value() <= other.value()),
    {
        let la = self.limbs.len();
        let lb = other.limbs.len();
        let n = if la >= lb {
            la
        } else {
            lb
        };
        let mut borrow: bool = false;
        let ghost mut acc: int = 0;
        let mut i: usize = 0;
        while i < n
            invariant
                la == self.limbs@.len(),
                lb == other.limbs@.len(),
                n >= la,
                n >= lb,
                i <= n,
                0 <= acc < base_pow(i as nat),
                acc - (if borrow {
                    1int
                } else {
                    0
                }) * base_pow(i as nat) == val_upto(other.limbs@, i as nat) - val_upto(
                    self.limbs@,
                    i as nat,
                ),
            decreases n - i,
        {
            let a: u64 = if i < la {
                self.limbs[i] as u64
            } else {
                0
            };
            let b: u64 = if i < lb {
                other.limbs[i] as u64
            } else {
                0
            };
            let sub: u64 = a + if borrow {
                1
            } else {
                0
            };
            let ghost p = base_pow(i as nat);
            let ghost bw: int = if borrow {
                1
            } else {
                0
            };
            proof {
                assert(limb(self.limbs@, i as int) == a);
                assert(limb(other.limbs@, i as int) == b);
                assert(base_pow((i + 1) as nat) == base() * p);
                assert(val_upto(self.limbs@, (i + 1) as nat) == val_upto(self.limbs@, i as nat) + a
                    * p);
                assert(val_upto(other.limbs@, (i + 1) as nat) == val_upto(other.limbs@, i as nat)
                    + b * p);
            }
            let ghost va = val_upto(self.limbs@, i as nat);
            let ghost vb = val_upto(other.limbs@, i as nat);
            proof {
                lemma_base_pow_pos(i as nat);
            }
            if b >= sub {
                proof {
                    let d: int = b - a - bw;
                    assert(0 <= d <= base() - 1);
                    assert(acc + d * p < base() * p && 0 <= acc + d * p) by (nonlinear_arith)
                        requires
                            0 <= acc < p,
                            0 <= d <= base() - 1,
                    ;
                    assert(d * p == b * p - a * p - bw * p) by (nonlinear_arith)
                        requires
                            d == b - a - bw,
                    ;
                    acc = acc + d * p;
                    assert(acc == (vb + b * p) - (va + a * p));
                }
                borrow = false;
            } else {
                proof {
                    let d: int = b + base() - a - bw;
                    assert(0 <= d <= base() - 1);
                    assert(acc + d * p < base() * p && 0 <= acc + d * p) by (nonlinear_arith)
                        requires
                            0 <= acc < p,
                            0 <= d <= base() - 1,
                    ;
                    assert(d * p - base() * p == b * p - a * p - bw * p) by (nonlinear_arith)
                        requires
                            d == b + base() - a - bw,
                    ;
                    acc = acc + d * p;
                    assert(acc - base() * p == (vb + b * p) - (va + a * p));
                }
                borrow = true;
            }
            i = i + 1;
        }
        proof {
            lemma_val_upto_beyond(self.limbs@, n as nat);
            lemma_val_upto_beyond(other.limbs@, n as nat);
        }
        !borrow
    }
}

} // verus!
