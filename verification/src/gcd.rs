//! The GCD reducer: a verified Euclidean algorithm on two operands and its
//! left-to-right extension to a non-empty sequence of operands.

use vstd::prelude::*;

verus! {

use vstd::arithmetic::div_mod::lemma_fundamental_div_mod;

/// The product `d * k`, named so that it can serve as a quantifier trigger.
pub open spec fn times(d: int, k: int) -> int {
    d * k
}

/// `d` divides `n` exactly.
pub open spec fn divides(d: int, n: int) -> bool {
    exists|k: int| times(d, k) == n
}

/// `g` is the greatest common divisor of `a` and `b`: it divides both, and
/// every common divisor of `a` and `b` divides it.
pub open spec fn is_gcd(a: int, b: int, g: int) -> bool {
    &&& g >= 1
    &&& divides(g, a)
    &&& divides(g, b)
    &&& forall|d: int| #[trigger] divides(d, a) && divides(d, b) ==> divides(d, g)
}

/// The Euclidean greatest common divisor of two naturals.
pub open spec fn spec_gcd(a: nat, b: nat) -> nat
    decreases b,
{
    if b == 0 {
        a
    } else {
        spec_gcd(b, a % b)
    }
}

pub proof fn lemma_divides_refl(n: int)
    ensures
        divides(n, n),
{
    assert(times(n, 1) == n);
}

pub proof fn lemma_divides_zero(d: int)
    ensures
        divides(d, 0),
{
    assert(times(d, 0) == 0);
}

pub proof fn lemma_divides_trans(a: int, b: int, c: int)
    requires
        divides(a, b),
        divides(b, c),
    ensures
        divides(a, c),
{
    let kb = choose|k: int| times(a, k) == b;
    let kc = choose|k: int| times(b, k) == c;
    assert(c == a * (kb * kc)) by (nonlinear_arith)
        requires
            b == a * kb,
            c == b * kc,
    ;
    assert(times(a, kb * kc) == c);
}

pub proof fn lemma_divides_antisym(a: int, b: int)
    requires
        a >= 1,
        b >= 1,
        divides(a, b),
        divides(b, a),
    ensures
        a == b,
{
    let k1 = choose|k: int| times(a, k) == b;
    let k2 = choose|k: int| times(b, k) == a;
    assert(a == b) by (nonlinear_arith)
        requires
            a >= 1,
            b >= 1,
            b == a * k1,
            a == b * k2,
    ;
}

/// Taking `y` modulo a positive `x` keeps the set of common divisors of the
/// pair unchanged: the heart of the Euclidean reduction step.
pub proof fn lemma_mod_common_divisors(x: int, y: int, d: int)
    requires
        x >= 1,
    ensures
        (divides(d, x) && divides(d, y)) <==> (divides(d, x) && divides(d, y % x)),
{
    lemma_fundamental_div_mod(y, x);
    let q = y / x;
    let r = y % x;
    if divides(d, x) && divides(d, y) {
        let kx = choose|k: int| times(d, k) == x;
        let ky = choose|k: int| times(d, k) == y;
        assert(r == d * (ky - q * kx)) by (nonlinear_arith)
            requires
                y == x * q + r,
                x == d * kx,
                y == d * ky,
        ;
        assert(times(d, ky - q * kx) == r);
    }
    if divides(d, x) && divides(d, y % x) {
        let kx = choose|k: int| times(d, k) == x;
        let kr = choose|k: int| times(d, k) == r;
        assert(y == d * (kr + q * kx)) by (nonlinear_arith)
            requires
                y == x * q + r,
                x == d * kx,
                r == d * kr,
        ;
        assert(times(d, kr + q * kx) == y);
    }
}

/// The Euclidean recursion computes a greatest common divisor whenever its
/// first operand is positive.
pub proof fn lemma_spec_gcd_is_gcd(a: nat, b: nat)
    requires
        a >= 1,
    ensures
        is_gcd(a as int, b as int, spec_gcd(a, b) as int),
    decreases b,
{
    let g = spec_gcd(a, b) as int;
    if b == 0 {
        lemma_divides_refl(a as int);
        lemma_divides_zero(a as int);
    } else {
        lemma_spec_gcd_is_gcd(b, a % b);
        // is_gcd(b, a % b, g) holds; transport it along the reduction step.
        lemma_mod_common_divisors(b as int, a as int, g);
        assert(divides(g, a as int));
        assert forall|d: int| #[trigger] divides(d, a as int) && divides(d, b as int) implies divides(
            d,
            g,
        ) by {
            lemma_mod_common_divisors(b as int, a as int, d);
            assert(divides(d, b as int) && divides(d, (a % b) as int));
        }
    }
}

pub proof fn lemma_is_gcd_unique(a: int, b: int, g1: int, g2: int)
    requires
        is_gcd(a, b, g1),
        is_gcd(a, b, g2),
    ensures
        g1 == g2,
{
    assert(divides(g1, a) && divides(g1, b));
    assert(divides(g2, a) && divides(g2, b));
    lemma_divides_antisym(g1, g2);
}

/// The set of common divisors of `x` and `y`.
pub open spec fn common_divisors(x: int, y: int) -> Set<int> {
    Set::new(|d: int| divides(d, x) && divides(d, y))
}

/// The iterative Euclidean algorithm on two positive 64-bit operands.
pub fn greatest_common_divisor(integer1: u64, integer2: u64) -> (r: u64)
    requires
        integer1 >= 1,
        integer2 >= 1,
    ensures
        r as nat == spec_gcd(integer1 as nat, integer2 as nat),
        r >= 1,
{
    let ghost a = integer1 as int;
    let ghost b = integer2 as int;
    let mut x = integer1;
    let mut y = integer2;
    while y != 0
        invariant
            x >= 1,
            common_divisors(x as int, y as int) == common_divisors(a, b),
        decreases y,
    {
        if y < x {
            let temp = y;
            y = x;
            x = temp;
            proof {
                assert(common_divisors(x as int, y as int) =~= common_divisors(
                    y as int,
                    x as int,
                ));
            }
        }
        proof {
            assert forall|d: int|
                common_divisors(x as int, (y % x) as int).contains(d) == common_divisors(
                    x as int,
                    y as int,
                ).contains(d) by {
                lemma_mod_common_divisors(x as int, y as int, d);
            }
            assert(common_divisors(x as int, (y % x) as int) =~= common_divisors(
                x as int,
                y as int,
            ));
        }
        y = y % x;
    }
    proof {
        let cs = common_divisors(a, b);
        lemma_spec_gcd_is_gcd(integer1 as nat, integer2 as nat);
        lemma_divides_refl(x as int);
        lemma_divides_zero(x as int);
        assert(common_divisors(x as int, y as int).contains(x as int));
        assert(cs.contains(x as int));
        assert(divides(x as int, a) && divides(x as int, b));
        assert forall|d: int| #[trigger] divides(d, a) && divides(d, b) implies divides(
            d,
            x as int,
        ) by {
            lemma_divides_zero(d);
            assert(cs.contains(d));
            assert(common_divisors(x as int, y as int).contains(d));
        }
        lemma_is_gcd_unique(a, b, spec_gcd(integer1 as nat, integer2 as nat) as int, x as int);
    }
    x
}

/// Every element of the sequence is a positive integer.
pub open spec fn all_positive(s: Seq<u64>) -> bool {
    forall|i: int| 0 <= i < s.len() ==> #[trigger] s[i] >= 1
}

/// The left-to-right pairwise GCD reduction of a sequence of operands.
pub open spec fn seq_gcd(s: Seq<u64>) -> nat
    decreases s.len(),
{
    if s.len() == 0 {
        0
    } else if s.len() == 1 {
        s[0] as nat
    } else {
        spec_gcd(seq_gcd(s.drop_last()), s.last() as nat)
    }
}

/// The failure mode of the reducer: some operand was zero, for which the
/// greatest common divisor is degenerate.
#[derive(Clone, Copy, PartialEq, Eq, Structural, Debug)]
pub enum ArithmeticError {
    ZeroOperand,
}

/// Reduces a non-empty list of operands to their greatest common divisor,
/// or reports `ZeroOperand` when any operand is zero.
pub fn compute_gcd(numbers: &Vec<u64>) -> (r: Result<u64, ArithmeticError>)
    requires
        numbers@.len() >= 1,
    ensures
        all_positive(numbers@) ==> (r matches Ok(g) && g as nat == seq_gcd(numbers@)),
        !all_positive(numbers@) ==> (r matches Err(e) && e == ArithmeticError::ZeroOperand),
{
    let first = numbers[0];
    if first == 0 {
        proof {
            assert(!(numbers@[0] >= 1));
        }
        return Err(ArithmeticError::ZeroOperand);
    }
    let mut divisor = first;
    let mut i: usize = 1;
    proof {
        assert(numbers@.take(1).len() == 1 && numbers@.take(1)[0] == numbers@[0]);
    }
    while i < numbers.len()
        invariant
            1 <= i <= numbers@.len(),
            divisor >= 1,
            divisor as nat == seq_gcd(numbers@.take(i as int)),
            forall|j: int| 0 <= j < i ==> #[trigger] numbers@[j] >= 1,
        decreases numbers@.len() - i,
    {
        let next_integer = numbers[i];
        if next_integer == 0 {
            proof {
                assert(!(numbers@[i as int] >= 1));
            }
            return Err(ArithmeticError::ZeroOperand);
        }
        proof {
            assert(numbers@.take(i as int + 1).drop_last() =~= numbers@.take(i as int));
            assert(numbers@.take(i as int + 1).last() == numbers@[i as int]);
        }
        divisor = greatest_common_divisor(divisor, next_integer);
        i += 1;
    }
    proof {
        assert(numbers@.take(numbers@.len() as int) =~= numbers@);
    }
    Ok(divisor)
}

/// `d` divides every element of the sequence.
pub open spec fn is_common_divisor(d: int, s: Seq<u64>) -> bool {
    forall|x: u64| #[trigger] s.contains(x) ==> divides(d, x as int)
}

/// `g` is the greatest common divisor of all elements of the sequence.
pub open spec fn is_seq_gcd(s: Seq<u64>, g: int) -> bool {
    &&& g >= 1
    &&& is_common_divisor(g, s)
    &&& forall|d: int| #[trigger] is_common_divisor(d, s) ==> divides(d, g)
}

/// The pairwise reduction computes a greatest common divisor of the whole
/// sequence whenever all operands are positive.
pub proof fn lemma_seq_gcd_is_seq_gcd(s: Seq<u64>)
    requires
        s.len() >= 1,
        all_positive(s),
    ensures
        is_seq_gcd(s, seq_gcd(s) as int),
    decreases s.len(),
{
    let g = seq_gcd(s) as int;
    if s.len() == 1 {
        assert(s[0] >= 1);
        assert forall|x: u64| s.contains(x) implies divides(g, x as int) by {
            let i = choose|i: int| 0 <= i < s.len() && s[i] == x;
            lemma_divides_refl(g);
        }
        assert forall|d: int| is_common_divisor(d, s) implies divides(d, g) by {
            assert(s.contains(s[0]));
        }
    } else {
        let t = s.drop_last();
        let last = s.last();
        assert forall|j: int| 0 <= j < t.len() implies #[trigger] t[j] >= 1 by {
            assert(s[j] >= 1);
        }
        lemma_seq_gcd_is_seq_gcd(t);
        let g1 = seq_gcd(t) as int;
        assert(s[s.len() - 1] >= 1);
        lemma_spec_gcd_is_gcd(seq_gcd(t), last as nat);
        // is_gcd(g1, last, g) holds.
        assert forall|x: u64| s.contains(x) implies divides(g, x as int) by {
            let i = choose|i: int| 0 <= i < s.len() && s[i] == x;
            if i < s.len() - 1 {
                assert(t[i] == x);
                assert(t.contains(x));
                lemma_divides_trans(g, g1, x as int);
            } else {
                assert(x == last);
            }
        }
        assert forall|d: int| is_common_divisor(d, s) implies divides(d, g) by {
            assert forall|x: u64| t.contains(x) implies divides(d, x as int) by {
                let i = choose|i: int| 0 <= i < t.len() && t[i] == x;
                assert(s[i] == x);
                assert(s.contains(x));
            }
            assert(is_common_divisor(d, t));
            assert(s[s.len() - 1] == last);
            assert(s.contains(last));
            assert(divides(d, g1) && divides(d, last as int));
        }
    }
}

/// Two greatest common divisors of the same sequence are equal.
pub proof fn lemma_is_seq_gcd_unique(s: Seq<u64>, g1: int, g2: int)
    requires
        is_seq_gcd(s, g1),
        is_seq_gcd(s, g2),
    ensures
        g1 == g2,
{
    assert(is_common_divisor(g1, s) && is_common_divisor(g2, s));
    lemma_divides_antisym(g1, g2);
}

/// Sequences with the same multiset of elements contain the same values.
proof fn lemma_same_elements(s1: Seq<u64>, s2: Seq<u64>, x: u64)
    requires
        s1.to_multiset() == s2.to_multiset(),
    ensures
        s1.contains(x) <==> s2.contains(x),
{
    vstd::seq_lib::to_multiset_contains(s1, x);
    vstd::seq_lib::to_multiset_contains(s2, x);
    assert(s1.to_multiset().count(x) == s2.to_multiset().count(x));
}

/// A permutation preserves length and the positivity of all operands, so a
/// reduction that fails with a zero operand fails for every reordering too.
pub proof fn lemma_all_positive_permutation(s1: Seq<u64>, s2: Seq<u64>)
    requires
        s1.to_multiset() == s2.to_multiset(),
    ensures
        s1.len() == s2.len(),
        all_positive(s1) <==> all_positive(s2),
{
    vstd::seq_lib::to_multiset_len(s1);
    vstd::seq_lib::to_multiset_len(s2);
    assert(s1.len() == s1.to_multiset().len());
    assert(s2.len() == s2.to_multiset().len());
    if all_positive(s1) {
        assert forall|i: int| 0 <= i < s2.len() implies #[trigger] s2[i] >= 1 by {
            assert(s2.contains(s2[i]));
            lemma_same_elements(s1, s2, s2[i]);
            let j = choose|j: int| 0 <= j < s1.len() && s1[j] == s2[i];
            assert(s1[j] >= 1);
        }
    }
    if all_positive(s2) {
        assert forall|i: int| 0 <= i < s1.len() implies #[trigger] s1[i] >= 1 by {
            assert(s1.contains(s1[i]));
            lemma_same_elements(s1, s2, s1[i]);
            let j = choose|j: int| 0 <= j < s2.len() && s2[j] == s1[i];
            assert(s2[j] >= 1);
        }
    }
}

/// The reduction order does not matter: any permutation of a sequence of
/// positive operands (same elements, same multiplicities, in any order)
/// reduces to the same greatest common divisor. In particular the reduction
/// is commutative and associative over its operand order.
pub proof fn lemma_seq_gcd_permutation(s1: Seq<u64>, s2: Seq<u64>)
    requires
        s1.len() >= 1,
        all_positive(s1),
        s1.to_multiset() == s2.to_multiset(),
    ensures
        seq_gcd(s1) == seq_gcd(s2),
{
    lemma_all_positive_permutation(s1, s2);
    lemma_seq_gcd_is_seq_gcd(s1);
    lemma_seq_gcd_is_seq_gcd(s2);
    let g2 = seq_gcd(s2) as int;
    // Transport the characterization of g2 from s2 to s1.
    assert forall|x: u64| s1.contains(x) implies divides(g2, x as int) by {
        lemma_same_elements(s1, s2, x);
    }
    assert forall|d: int| is_common_divisor(d, s1) implies divides(d, g2) by {
        assert forall|x: u64| s2.contains(x) implies divides(d, x as int) by {
            lemma_same_elements(s1, s2, x);
        }
        assert(is_common_divisor(d, s2));
    }
    assert(is_seq_gcd(s1, g2));
    lemma_is_seq_gcd_unique(s1, seq_gcd(s1) as int, g2);
}

/// Reducing a single positive operand yields that operand.
pub proof fn lemma_seq_gcd_single(a: u64)
    requires
        a >= 1,
    ensures
        seq_gcd(seq![a]) == a,
{
    assert(seq![a].len() == 1 && seq![a][0] == a);
}

} // verus!
