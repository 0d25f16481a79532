//! Unsigned integers of arbitrary size.
//!
//! Amounts of value do not fit a machine word, so the ledger counts in
//! [`BigUint`]: a natural number held as base-256 digits. Every operation is
//! specified against the number itself (`@` gives it as a `nat`).

use vstd::prelude::*;

verus! {

/// 256 to the power `n`.
spec fn pow256(n: nat) -> nat
    decreases n,
{
    if n == 0 {
        1
    } else {
        256 * pow256((n - 1) as nat)
    }
}

/// The number written by the base-256 digits `s`, least significant first.
spec fn le_value(s: Seq<u8>) -> nat
    decreases s.len(),
{
    if s.len() == 0 {
        0
    } else {
        le_value(s.drop_last()) + (s.last() as nat) * pow256((s.len() - 1) as nat)
    }
}

/// The number written by the base-256 digits `s`, most significant first.
/// Leading zero digits are allowed and change nothing.
pub open spec fn be_value(s: Seq<u8>) -> nat
    decreases s.len(),
{
    if s.len() == 0 {
        0
    } else {
        256 * be_value(s.drop_last()) + s.last() as nat
    }
}

/// The shortest big-endian base-256 writing of `n`: no leading zero digit,
/// and the empty sequence for zero.
pub open spec fn be_bytes(n: nat) -> Seq<u8>
    decreases n,
{
    if n == 0 {
        Seq::empty()
    } else {
        be_bytes(n / 256).push((n % 256) as u8)
    }
}

/// A digit sequence is canonical when its most significant digit, the last
/// one, is not zero.
spec fn canonical(s: Seq<u8>) -> bool {
    s.len() == 0 || s.last() != 0
}

proof fn lemma_pow256_positive(n: nat)
    ensures
        pow256(n) >= 1,
    decreases n,
{
    if n > 0 {
        lemma_pow256_positive((n - 1) as nat);
    }
}

proof fn lemma_pow256_monotonic(m: nat, n: nat)
    requires
        m <= n,
    ensures
        pow256(m) <= pow256(n),
    decreases n,
{
    if m < n {
        lemma_pow256_monotonic(m, (n - 1) as nat);
        lemma_pow256_positive((n - 1) as nat);
    }
}

/// A digit times a power stays below the next power.
proof fn lemma_digit_times_pow(d: u8, p: nat)
    ensures
        (d as nat) * p <= 255 * p,
{
    assert((d as nat) * p <= 255 * p) by (nonlinear_arith)
        requires
            d <= 255,
    ;
}

proof fn lemma_le_value_bound(s: Seq<u8>)
    ensures
        le_value(s) < pow256(s.len()),
    decreases s.len(),
{
    if s.len() > 0 {
        lemma_le_value_bound(s.drop_last());
        lemma_digit_times_pow(s.last(), pow256((s.len() - 1) as nat));
    }
}

proof fn lemma_le_value_lower(s: Seq<u8>)
    requires
        s.len() > 0,
        s.last() != 0,
    ensures
        le_value(s) >= pow256((s.len() - 1) as nat),
{
    let p = pow256((s.len() - 1) as nat);
    assert((s.last() as nat) * p >= p) by (nonlinear_arith)
        requires
            s.last() >= 1,
    ;
}

/// A canonical digit sequence writes zero only when it is empty.
proof fn lemma_le_value_zero(s: Seq<u8>)
    requires
        canonical(s),
    ensures
        le_value(s) == 0 <==> s.len() == 0,
{
    if s.len() > 0 {
        lemma_le_value_lower(s);
        lemma_pow256_positive((s.len() - 1) as nat);
    }
}

/// The digit of `s` at place `i`; zero beyond its length.
spec fn digit_at(s: Seq<u8>, i: int) -> nat {
    if 0 <= i < s.len() {
        s[i] as nat
    } else {
        0
    }
}

/// The number written by the first `i` digits of `s`, or by all of `s` where
/// it has fewer.
spec fn prefix_value(s: Seq<u8>, i: int) -> nat {
    if 0 <= i < s.len() {
        le_value(s.take(i))
    } else {
        le_value(s)
    }
}

proof fn lemma_prefix_step(s: Seq<u8>, i: int)
    requires
        0 <= i,
    ensures
        prefix_value(s, i + 1) == prefix_value(s, i) + digit_at(s, i) * pow256(i as nat),
{
    if i < s.len() {
        let t = if i + 1 < s.len() {
            s.take(i + 1)
        } else {
            s
        };
        assert(s.take(s.len() as int) =~= s);
        assert(t.drop_last() =~= s.take(i));
    } else {
        assert(0 * pow256(i as nat) == 0);
    }
}

/// Of two canonical digit sequences the longer writes the larger number.
proof fn lemma_longer_is_larger(a: Seq<u8>, b: Seq<u8>)
    requires
        canonical(a),
        a.len() > b.len(),
    ensures
        le_value(a) > le_value(b),
{
    lemma_le_value_lower(a);
    lemma_le_value_bound(b);
    lemma_pow256_monotonic(b.len(), (a.len() - 1) as nat);
}

/// The least significant digit can be split off a little-endian writing.
proof fn lemma_le_value_first(s: Seq<u8>)
    requires
        s.len() > 0,
    ensures
        le_value(s) == s[0] as nat + 256 * le_value(s.drop_first()),
    decreases s.len(),
{
    if s.len() == 1 {
        assert(pow256(0) == 1);
        assert(le_value(s.drop_last()) == 0);
        assert(le_value(s.drop_first()) == 0);
        assert((s[0] as nat) * 1 == s[0] as nat);
    } else {
        let n = s.len();
        let last = s.last() as nat;
        let q = pow256((n - 2) as nat);
        let dl = s.drop_last();
        let df = s.drop_first();
        lemma_le_value_first(dl);
        assert(dl.drop_first() =~= df.drop_last());
        assert(df.last() == s.last());
        assert(dl[0] == s[0]);
        assert(pow256((n - 1) as nat) == 256 * q);
        assert(last * (256 * q) == 256 * (last * q)) by (nonlinear_arith);
        assert(le_value(s) == le_value(dl) + last * pow256((n - 1) as nat));
        assert(le_value(df) == le_value(df.drop_last()) + last * q);
    }
}

/// The most significant digit can be split off a big-endian writing.
proof fn lemma_be_value_first(s: Seq<u8>)
    requires
        s.len() > 0,
    ensures
        be_value(s) == (s[0] as nat) * pow256((s.len() - 1) as nat) + be_value(s.drop_first()),
    decreases s.len(),
{
    if s.len() == 1 {
        assert(pow256(0) == 1);
        assert(be_value(s.drop_last()) == 0);
        assert(be_value(s.drop_first()) == 0);
        assert((s[0] as nat) * 1 == s[0] as nat);
    } else {
        let n = s.len();
        let first = s[0] as nat;
        let q = pow256((n - 2) as nat);
        let dl = s.drop_last();
        let df = s.drop_first();
        lemma_be_value_first(dl);
        assert(dl.drop_first() =~= df.drop_last());
        assert(df.last() == s.last());
        assert(dl[0] == s[0]);
        assert(pow256((n - 1) as nat) == 256 * q);
        assert(first * (256 * q) == 256 * (first * q)) by (nonlinear_arith);
        assert(be_value(s) == 256 * be_value(dl) + s.last() as nat);
        assert(be_value(dl) == first * q + be_value(dl.drop_first()));
        assert(be_value(df) == 256 * be_value(df.drop_last()) + s.last() as nat);
    }
}

/// The shortest big-endian writing of a number is its canonical
/// little-endian writing read backwards.
proof fn lemma_be_bytes_of_le_value(s: Seq<u8>)
    requires
        canonical(s),
    ensures
        be_bytes(le_value(s)) == s.reverse(),
    decreases s.len(),
{
    if s.len() == 0 {
        assert(s.reverse() =~= Seq::<u8>::empty());
    } else {
        let rest = s.drop_first();
        lemma_le_value_zero(s);
        lemma_le_value_first(s);
        assert(canonical(rest)) by {
            if rest.len() > 0 {
                assert(rest.last() == s.last());
            }
        }
        lemma_be_bytes_of_le_value(rest);
        let v = le_value(s);
        assert(v / 256 == le_value(rest) && v % 256 == s[0] as nat) by (nonlinear_arith)
            requires
                v == s[0] as nat + 256 * le_value(rest),
                s[0] < 256,
        ;
        assert(s.reverse() =~= rest.reverse().push(s[0]));
    }
}

/// Reading back the shortest big-endian writing of a number gives the
/// number.
pub proof fn lemma_be_value_of_be_bytes(n: nat)
    ensures
        be_value(be_bytes(n)) == n,
    decreases n,
{
    if n > 0 {
        lemma_be_value_of_be_bytes(n / 256);
        assert(be_bytes(n).drop_last() =~= be_bytes(n / 256));
    }
}

/// The shortest big-endian writing of a number does not start with a zero
/// digit.
pub proof fn lemma_be_bytes_no_leading_zero(n: nat)
    ensures
        n == 0 <==> be_bytes(n).len() == 0,
        n > 0 ==> be_bytes(n)[0] != 0,
    decreases n,
{
    if n > 0 {
        lemma_be_bytes_no_leading_zero(n / 256);
    }
}

/// An arbitrarily large natural number.
///
/// The digits are base 256, least significant first, and the most
/// significant digit is never zero, so each number has exactly one form.
#[derive(Debug, PartialEq, Eq)]
pub struct BigUint {
    digits: Vec<u8>,
}

impl View for BigUint {
    type V = nat;

    closed spec fn view(&self) -> nat {
        le_value(self.digits@)
    }
}

impl BigUint {
    #[verifier::type_invariant]
    spec fn well_formed(&self) -> bool {
        canonical(self.digits@)
    }

    /// The number zero.
    pub fn zero() -> (n: Self)
        ensures
            n@ == 0,
    {
        BigUint { digits: Vec::new() }
    }

    /// Whether the number is zero.
    pub fn is_zero(&self) -> (z: bool)
        ensures
            z == (self@ == 0),
    {
        proof {
            use_type_invariant(self);
            lemma_le_value_zero(self.digits@);
        }
        self.digits.len() == 0
    }

    /// The number `v`.
    pub fn from_u64(v: u64) -> (n: Self)
        ensures
            n@ == v,
    {
        let mut digits: Vec<u8> = Vec::new();
        let mut rest: u64 = v;
        proof {
            assert(pow256(0) == 1);
            assert(digits@.len() == 0);
            assert(rest * pow256(digits@.len()) == rest);
        }
        while rest > 0
            invariant
                le_value(digits@) + rest * pow256(digits@.len()) == v,
                rest == 0 ==> canonical(digits@),
            decreases rest,
        {
            let d: u8 = (rest % 256) as u8;
            let ghost before = digits@;
            let ghost p = pow256(before.len());
            digits.push(d);
            proof {
                assert(digits@.drop_last() =~= before);
                assert(rest * p == (rest / 256) * (256 * p) + d * p) by (nonlinear_arith)
                    requires
                        rest == 256 * (rest / 256) + d,
                ;
            }
            rest = rest / 256;
        }
        BigUint { digits }
    }

    /// The number, where it fits in 64 bits.
    pub fn to_u64(&self) -> (r: Option<u64>)
        ensures
            self@ <= u64::MAX ==> r == Some(self@ as u64),
            self@ > u64::MAX ==> r is None,
    {
        proof {
            use_type_invariant(self);
            reveal_with_fuel(pow256, 9);
            assert(pow256(8) == 0x1_0000_0000_0000_0000);
        }
        let n: usize = self.digits.len();
        if n > 8 {
            proof {
                lemma_le_value_lower(self.digits@);
                lemma_pow256_monotonic(8, (n - 1) as nat);
            }
            return None;
        }
        let mut acc: u128 = 0;
        let mut scale: u128 = 1;
        let mut i: usize = 0;
        proof {
            assert(self.digits@.take(0) =~= Seq::<u8>::empty());
        }
        while i < n
            invariant
                n == self.digits@.len(),
                n <= 8,
                i <= n,
                pow256(8) == 0x1_0000_0000_0000_0000,
                scale == pow256(i as nat),
                acc == le_value(self.digits@.take(i as int)),
            decreases n - i,
        {
            let d: u128 = self.digits[i] as u128;
            proof {
                lemma_pow256_monotonic(i as nat, 8);
                lemma_le_value_bound(self.digits@.take(i as int));
                lemma_digit_times_pow(self.digits@[i as int], pow256(i as nat));
                assert(self.digits@.take(i + 1).drop_last() =~= self.digits@.take(i as int));
            }
            acc = acc + d * scale;
            scale = scale * 256;
            i += 1;
        }
        proof {
            assert(self.digits@.take(n as int) =~= self.digits@);
            lemma_le_value_bound(self.digits@);
            lemma_pow256_monotonic(n as nat, 8);
        }
        Some(acc as u64)
    }

    /// The number that `bytes` writes in base 256, most significant digit
    /// first. Leading zero bytes are accepted.
    pub fn from_bytes_be(bytes: &[u8]) -> (n: Self)
        ensures
            n@ == be_value(bytes@),
    {
        let len: usize = bytes.len();
        let mut digits: Vec<u8> = Vec::new();
        let mut k: usize = len;
        proof {
            assert(bytes@.skip(len as int) =~= Seq::<u8>::empty());
        }
        while k > 0
            invariant
                len == bytes@.len(),
                k <= len,
                digits@.len() == len - k,
                le_value(digits@) == be_value(bytes@.skip(k as int)),
            decreases k,
        {
            let ghost before = digits@;
            k -= 1;
            digits.push(bytes[k]);
            proof {
                let tail = bytes@.skip(k as int);
                assert(digits@.drop_last() =~= before);
                assert(tail.drop_first() =~= bytes@.skip(k + 1));
                lemma_be_value_first(tail);
            }
        }
        proof {
            assert(bytes@.skip(0) =~= bytes@);
        }
        let mut m: usize = digits.len();
        while m > 0 && digits[m - 1] == 0
            invariant
                m == digits@.len(),
                le_value(digits@) == be_value(bytes@),
            decreases m,
        {
            let ghost before = digits@;
            digits.pop();
            m -= 1;
            proof {
                assert(digits@ =~= before.drop_last());
                assert(0 * pow256(m as nat) == 0);
            }
        }
        BigUint { digits }
    }

    /// The shortest writing of the number in base 256, most significant
    /// digit first; zero gives no bytes at all.
    pub fn to_bytes_be(&self) -> (bytes: Vec<u8>)
        ensures
            bytes@ == be_bytes(self@),
    {
        proof {
            use_type_invariant(self);
            lemma_be_bytes_of_le_value(self.digits@);
        }
        let len: usize = self.digits.len();
        let mut bytes: Vec<u8> = Vec::new();
        let mut k: usize = len;
        while k > 0
            invariant
                len == self.digits@.len(),
                k <= len,
                bytes@.len() == len - k,
                forall|j: int| 0 <= j < bytes@.len() ==> bytes@[j] == self.digits@[len - 1 - j],
            decreases k,
        {
            k -= 1;
            bytes.push(self.digits[k]);
        }
        proof {
            assert(bytes@ =~= self.digits@.reverse());
        }
        bytes
    }

    /// The sum of the two numbers.
    pub fn add(&self, other: &BigUint) -> (sum: BigUint)
        ensures
            sum@ == self@ + other@,
    {
        proof {
            use_type_invariant(self);
            use_type_invariant(other);
        }
        let la: usize = self.digits.len();
        let lb: usize = other.digits.len();
        let n: usize = if la >= lb {
            la
        } else {
            lb
        };
        let mut digits: Vec<u8> = Vec::new();
        let mut carry: u16 = 0;
        let mut i: usize = 0;
        proof {
            assert(pow256(0) == 1);
            assert(le_value(digits@) == 0);
            assert(self.digits@.take(0) =~= Seq::<u8>::empty());
            assert(other.digits@.take(0) =~= Seq::<u8>::empty());
            assert(carry * pow256(0) == 0);
        }
        while i < n
            invariant
                la == self.digits@.len(),
                lb == other.digits@.len(),
                la <= n,
                lb <= n,
                i <= n,
                digits@.len() == i,
                carry <= 1,
                le_value(digits@) + carry * pow256(i as nat) == prefix_value(self.digits@, i as int)
                    + prefix_value(other.digits@, i as int),
            decreases n - i,
        {
            let a: u16 = if i < la {
                self.digits[i] as u16
            } else {
                0
            };
            let b: u16 = if i < lb {
                other.digits[i] as u16
            } else {
                0
            };
            let t: u16 = a + b + carry;
            let d: u8 = (t % 256) as u8;
            let ghost before = digits@;
            let ghost p = pow256(i as nat);
            let ghost c = carry;
            digits.push(d);
            carry = t / 256;
            proof {
                assert(digits@.drop_last() =~= before);
                lemma_prefix_step(self.digits@, i as int);
                lemma_prefix_step(other.digits@, i as int);
                assert(a == digit_at(self.digits@, i as int));
                assert(b == digit_at(other.digits@, i as int));
                assert(d * p + carry * (256 * p) == a * p + b * p + c * p) by (nonlinear_arith)
                    requires
                        a + b + c == 256 * carry + d,
                ;
            }
            i += 1;
        }
        proof {
            assert(prefix_value(self.digits@, n as int) == le_value(self.digits@));
            assert(prefix_value(other.digits@, n as int) == le_value(other.digits@));
        }
        if carry > 0 {
            let ghost before = digits@;
            digits.push(1);
            proof {
                assert(digits@.drop_last() =~= before);
                assert(carry * pow256(n as nat) == 1 * pow256(n as nat));
            }
        } else {
            proof {
                assert(carry * pow256(n as nat) == 0);
                if n > 0 && digits@.last() == 0 {
                    lemma_le_value_bound(digits@.drop_last());
                    assert(0 * pow256((n - 1) as nat) == 0);
                    if la == n {
                        lemma_le_value_lower(self.digits@);
                    } else {
                        lemma_le_value_lower(other.digits@);
                    }
                }
            }
        }
        BigUint { digits }
    }

    /// Whether this number is at least `other`.
    pub fn ge(&self, other: &BigUint) -> (r: bool)
        ensures
            r == (self@ >= other@),
    {
        proof {
            use_type_invariant(self);
            use_type_invariant(other);
        }
        let la: usize = self.digits.len();
        let lb: usize = other.digits.len();
        if la > lb {
            proof {
                lemma_longer_is_larger(self.digits@, other.digits@);
            }
            return true;
        }
        if la < lb {
            proof {
                lemma_longer_is_larger(other.digits@, self.digits@);
            }
            return false;
        }
        let mut i: usize = la;
        proof {
            assert(self.digits@.take(la as int) =~= self.digits@);
            assert(other.digits@.take(la as int) =~= other.digits@);
        }
        while i > 0
            invariant
                la == self.digits@.len(),
                la == other.digits@.len(),
                i <= la,
                le_value(self.digits@) - le_value(self.digits@.take(i as int)) == le_value(
                    other.digits@,
                ) - le_value(other.digits@.take(i as int)),
            decreases i,
        {
            i -= 1;
            let x: u8 = self.digits[i];
            let y: u8 = other.digits[i];
            proof {
                let p = pow256(i as nat);
                let ta = self.digits@.take(i + 1);
                let tb = other.digits@.take(i + 1);
                assert(ta.drop_last() =~= self.digits@.take(i as int));
                assert(tb.drop_last() =~= other.digits@.take(i as int));
                assert(le_value(ta) == le_value(self.digits@.take(i as int)) + x * p);
                assert(le_value(tb) == le_value(other.digits@.take(i as int)) + y * p);
                lemma_le_value_bound(self.digits@.take(i as int));
                lemma_le_value_bound(other.digits@.take(i as int));
                if x > y {
                    assert(x * p >= y * p + p) by (nonlinear_arith)
                        requires
                            x >= y + 1,
                    ;
                }
                if x < y {
                    assert(y * p >= x * p + p) by (nonlinear_arith)
                        requires
                            y >= x + 1,
                    ;
                }
            }
            if x != y {
                return x > y;
            }
        }
        proof {
            assert(self.digits@.take(0) =~= Seq::<u8>::empty());
            assert(other.digits@.take(0) =~= Seq::<u8>::empty());
        }
        true
    }
}

impl Clone for BigUint {
    /// A second copy of the same number.
    fn clone(&self) -> (copy: Self)
        ensures
            copy@ == self@,
    {
        proof {
            use_type_invariant(self);
        }
        let digits: Vec<u8> = self.digits.clone();
        proof {
            assert(digits@ =~= self.digits@);
        }
        BigUint { digits }
    }
}

} // verus!
