//! The computation core: pure, total (or explicitly bounded) operations on
//! language-native value types. Nothing here touches buffer ownership; the
//! boundary layers build on these contracts.

use vstd::prelude::*;
use vstd::arithmetic::div_mod::{lemma_fundamental_div_mod, lemma_mod_multiples_basic};
use vstd::string::StrSliceExecFns;
use vstd::utf8::encode_utf8;

verus! {

/// The factorial of `n`, taken to be 1 for every `n <= 1`.
pub open spec fn spec_factorial(n: int) -> int
    decreases n,
{
    if n <= 1 {
        1
    } else {
        n * spec_factorial(n - 1)
    }
}

/// The Fibonacci sequence: F(0) = 0, F(1) = 1, F(n) = F(n-1) + F(n-2).
pub open spec fn spec_fibonacci(n: int) -> int
    decreases n,
{
    if n <= 0 {
        0
    } else if n == 1 {
        1
    } else {
        spec_fibonacci(n - 1) + spec_fibonacci(n - 2)
    }
}

/// Primality: at least 2, and no divisor strictly between 1 and itself.
pub open spec fn spec_is_prime(n: int) -> bool {
    n >= 2 && forall|d: int| 2 <= d < n ==> #[trigger] (n % d) != 0
}

/// The sum of a sequence of 32-bit integers, as an unbounded integer.
pub open spec fn sum_of(s: Seq<i32>) -> int
    decreases s.len(),
{
    if s.len() == 0 {
        0
    } else {
        sum_of(s.drop_last()) + s.last()
    }
}

/// The sum of `a` and `b` wrapped into the 32-bit signed range, as native
/// two's-complement addition computes it.
pub open spec fn spec_sum_wrapped(a: int, b: int) -> int {
    if a + b > i32::MAX {
        a + b - 0x1_0000_0000
    } else if a + b < i32::MIN {
        a + b + 0x1_0000_0000
    } else {
        a + b
    }
}

/// Add two integers, wrapping around on overflow as the native
/// two's-complement addition does. On every pair whose mathematical sum fits
/// in 32 bits, the result is exactly that sum.
pub fn add_numbers(a: i32, b: i32) -> (r: i32)
    ensures
        r == spec_sum_wrapped(a as int, b as int),
        i32::MIN <= a + b <= i32::MAX ==> r == a + b,
{
    a.wrapping_add(b)
}

/// `spec_factorial` is at least 1 and does not decrease along its argument.
pub proof fn lemma_factorial_bounds(i: int, j: int)
    requires
        i <= j,
    ensures
        1 <= spec_factorial(i) <= spec_factorial(j),
    decreases j,
{
    if j <= 1 {
    } else if i == j {
        lemma_factorial_bounds(i - 1, j - 1);
        assert(spec_factorial(j) == j * spec_factorial(j - 1));
        assert(j * spec_factorial(j - 1) >= 1 * spec_factorial(j - 1)) by (nonlinear_arith)
            requires
                j >= 2,
                spec_factorial(j - 1) >= 1,
        ;
    } else {
        lemma_factorial_bounds(i, j - 1);
        assert(spec_factorial(j) == j * spec_factorial(j - 1));
        assert(j * spec_factorial(j - 1) >= 1 * spec_factorial(j - 1)) by (nonlinear_arith)
            requires
                j >= 2,
                spec_factorial(j - 1) >= 1,
        ;
    }
}

/// The factorial of `n`, which is 1 for every `n <= 1`. The bound on `n`
/// keeps the product within a 32-bit integer.
pub fn factorial(n: i32) -> (r: i32)
    requires
        n <= 12,
    ensures
        r == spec_factorial(n as int),
{
    if n <= 1 {
        return 1;
    }
    let mut acc: i32 = 1;
    let mut i: i32 = 1;
    while i < n
        invariant
            1 <= i <= n <= 12,
            acc == spec_factorial(i as int),
        decreases n - i,
    {
        proof {
            lemma_factorial_bounds(i as int, i + 1);
            lemma_factorial_bounds(i + 1, 12);
            assert(spec_factorial(12) == 479001600) by {
                reveal_with_fuel(spec_factorial, 13);
            }
            assert(spec_factorial(i + 1) == (i + 1) * spec_factorial(i as int));
            assert((i + 1) * spec_factorial(i as int) >= 1 * spec_factorial(i as int))
                by (nonlinear_arith)
                requires
                    i >= 1,
                    spec_factorial(i as int) >= 1,
            ;
        }
        i = i + 1;
        acc = i * acc;
    }
    acc
}

/// No even number at least 2 divides an odd number.
proof fn lemma_odd_has_no_even_divisor(n: int, d: int)
    requires
        n % 2 == 1,
        d % 2 == 0,
        d >= 2,
    ensures
        n % d != 0,
{
    if n % d == 0 {
        lemma_fundamental_div_mod(n, d);
        let q = n / d;
        let h = d / 2;
        lemma_fundamental_div_mod(d, 2);
        assert(n == 2 * (h * q)) by (nonlinear_arith)
            requires
                n == d * q,
                d == 2 * h,
        ;
        lemma_mod_multiples_basic(h * q, 2);
    }
}

/// A number at least 2 with no divisor below `i` is prime once `i * i`
/// exceeds it: any factorisation has one factor at most the square root.
proof fn lemma_no_small_factor_prime(n: int, i: int)
    requires
        n >= 2,
        i >= 2,
        i * i > n,
        forall|d: int| 2 <= d < i ==> #[trigger] (n % d) != 0,
    ensures
        spec_is_prime(n),
{
    assert forall|d: int| 2 <= d < n implies #[trigger] (n % d) != 0 by {
        if d >= i && n % d == 0 {
            lemma_fundamental_div_mod(n, d);
            let e = n / d;
            assert(n == d * e);
            assert(e >= 1) by (nonlinear_arith)
                requires
                    n == d * e,
                    d >= 2,
                    n >= 2,
            ;
            assert(e != 1) by {
                if e == 1 {
                    assert(n == d * 1);
                }
            }
            assert(e < i) by {
                if e >= i {
                    assert(d * e >= i * i) by (nonlinear_arith)
                        requires
                            d >= i,
                            e >= i,
                            i >= 2,
                    ;
                }
            }
            lemma_mod_multiples_basic(d, e);
            assert(n % e == 0);
        }
    }
}

/// Law: nothing below 2 is prime.
pub proof fn lemma_small_not_prime(n: int)
    requires
        n < 2,
    ensures
        !spec_is_prime(n),
{
}

/// Law: every even number above 2 is composite.
pub proof fn lemma_even_not_prime(n: int)
    requires
        n > 2,
        n % 2 == 0,
    ensures
        !spec_is_prime(n),
{
    assert(n % 2 == 0 && 2 <= 2 < n);
}

/// Whether `n` is prime. Trial-divides only odd candidates up to the square
/// root of `n`; the candidate is squared in 64 bits so the test itself
/// cannot overflow.
pub fn is_prime(n: i32) -> (r: bool)
    ensures
        r == spec_is_prime(n as int),
{
    if n < 2 {
        return false;
    }
    if n == 2 {
        return true;
    }
    if n % 2 == 0 {
        proof {
            lemma_even_not_prime(n as int);
        }
        return false;
    }
    let mut i: i32 = 3;
    loop
        invariant
            3 <= i <= 46343,
            i % 2 == 1,
            n % 2 == 1,
            3 <= n <= i32::MAX,
            forall|d: int| 2 <= d < i ==> #[trigger] ((n as int) % d) != 0,
        ensures
            3 <= i,
            (i as int) * (i as int) > n as int,
            forall|d: int| 2 <= d < i ==> #[trigger] ((n as int) % d) != 0,
        decreases 46345 - i,
    {
        proof {
            assert((i as int) * (i as int) <= 46343 * 46343) by (nonlinear_arith)
                requires
                    3 <= i <= 46343,
            ;
        }
        let sq: i64 = (i as i64) * (i as i64);
        if sq > n as i64 {
            break;
        }
        proof {
            assert(i <= 46340) by (nonlinear_arith)
                requires
                    (i as int) * (i as int) <= n as int,
                    3 <= i,
                    n <= 0x7fff_ffff,
            ;
        }
        if n % i == 0 {
            proof {
                assert((n as int) % (i as int) == 0);
                assert(i < n) by (nonlinear_arith)
                    requires
                        i >= 3,
                        n >= 3,
                        i * i <= n,
                ;
            }
            return false;
        }
        proof {
            lemma_odd_has_no_even_divisor(n as int, i + 1);
        }
        i = i + 2;
    }
    proof {
        lemma_no_small_factor_prime(n as int, i as int);
    }
    true
}

/// `spec_fibonacci` is non-negative and does not decrease along its argument.
pub proof fn lemma_fibonacci_bounds(i: int, j: int)
    requires
        i <= j,
    ensures
        0 <= spec_fibonacci(i) <= spec_fibonacci(j),
    decreases j,
{
    if j <= 0 {
    } else if j == 1 {
        if i <= 0 {
        }
    } else {
        lemma_fibonacci_bounds(if i == j { i - 1 } else { i }, j - 1);
        lemma_fibonacci_bounds(0, j - 2);
    }
}

/// The concrete value of the 46th Fibonacci number, the largest one that
/// fits in a 32-bit signed integer, established step by step.
pub proof fn lemma_fibonacci_46()
    ensures
        spec_fibonacci(46) == 1836311903,
{
    assert(spec_fibonacci(0) == 0);
    assert(spec_fibonacci(1) == 1);
    assert(spec_fibonacci(2) == 1);
    assert(spec_fibonacci(3) == 2);
    assert(spec_fibonacci(4) == 3);
    assert(spec_fibonacci(5) == 5);
    assert(spec_fibonacci(6) == 8);
    assert(spec_fibonacci(7) == 13);
    assert(spec_fibonacci(8) == 21);
    assert(spec_fibonacci(9) == 34);
    assert(spec_fibonacci(10) == 55);
    assert(spec_fibonacci(11) == 89);
    assert(spec_fibonacci(12) == 144);
    assert(spec_fibonacci(13) == 233);
    assert(spec_fibonacci(14) == 377);
    assert(spec_fibonacci(15) == 610);
    assert(spec_fibonacci(16) == 987);
    assert(spec_fibonacci(17) == 1597);
    assert(spec_fibonacci(18) == 2584);
    assert(spec_fibonacci(19) == 4181);
    assert(spec_fibonacci(20) == 6765);
    assert(spec_fibonacci(21) == 10946);
    assert(spec_fibonacci(22) == 17711);
    assert(spec_fibonacci(23) == 28657);
    assert(spec_fibonacci(24) == 46368);
    assert(spec_fibonacci(25) == 75025);
    assert(spec_fibonacci(26) == 121393);
    assert(spec_fibonacci(27) == 196418);
    assert(spec_fibonacci(28) == 317811);
    assert(spec_fibonacci(29) == 514229);
    assert(spec_fibonacci(30) == 832040);
    assert(spec_fibonacci(31) == 1346269);
    assert(spec_fibonacci(32) == 2178309);
    assert(spec_fibonacci(33) == 3524578);
    assert(spec_fibonacci(34) == 5702887);
    assert(spec_fibonacci(35) == 9227465);
    assert(spec_fibonacci(36) == 14930352);
    assert(spec_fibonacci(37) == 24157817);
    assert(spec_fibonacci(38) == 39088169);
    assert(spec_fibonacci(39) == 63245986);
    assert(spec_fibonacci(40) == 102334155);
    assert(spec_fibonacci(41) == 165580141);
    assert(spec_fibonacci(42) == 267914296);
    assert(spec_fibonacci(43) == 433494437);
    assert(spec_fibonacci(44) == 701408733);
    assert(spec_fibonacci(45) == 1134903170);
    assert(spec_fibonacci(46) == 1836311903);
}

/// The `n`-th Fibonacci number, computed iteratively. For negative `n` the
/// argument itself comes back, as the native code does; the bound on `n`
/// keeps every intermediate value within a 32-bit integer.
pub fn fibonacci(n: i32) -> (r: i32)
    requires
        n <= 46,
    ensures
        n >= 0 ==> r == spec_fibonacci(n as int),
        n < 0 ==> r == n,
{
    if n <= 1 {
        return n;
    }
    let mut a: i32 = 0;
    let mut b: i32 = 1;
    let mut k: i32 = 2;
    while k <= n
        invariant
            2 <= k <= n + 1,
            n <= 46,
            a == spec_fibonacci(k - 2),
            b == spec_fibonacci(k - 1),
        decreases n + 1 - k,
    {
        proof {
            lemma_fibonacci_bounds(k as int, 46);
            lemma_fibonacci_46();
            lemma_fibonacci_bounds(k - 2, k - 1);
        }
        let temp: i32 = a + b;
        a = b;
        b = temp;
        k = k + 1;
    }
    b
}

/// The length of a string in bytes of its UTF-8 encoding, not in code
/// points. The bound is forced by the 32-bit result type.
pub fn string_length(s: &str) -> (r: i32)
    requires
        encode_utf8(s@).len() <= i32::MAX,
    ensures
        r == encode_utf8(s@).len(),
{
    s.len() as i32
}

/// Relies on `alloc::string::String::push`: appends the given character to
/// the end of the string.
#[verifier::external_body]
fn push_char(s: &mut String, c: char)
    ensures
        final(s)@ == old(s)@.push(c),
{
    s.push(c);
}

/// Reverse a string by code point, so multi-byte encoded text is not
/// corrupted mid-sequence.
pub fn reverse_string(s: &str) -> (r: String)
    ensures
        r@ == s@.reverse(),
{
    let n: usize = s.unicode_len();
    let mut out = String::new();
    let mut i: usize = n;
    while i > 0
        invariant
            i <= n,
            n == s@.len(),
            out@.len() == n - i,
            forall|j: int| 0 <= j < out@.len() ==> out@[j] == s@[n - 1 - j],
        decreases i,
    {
        i = i - 1;
        let c = s.get_char(i);
        push_char(&mut out, c);
    }
    proof {
        assert(out@ =~= s@.reverse());
    }
    out
}

/// The sum of a slice of integers; an empty slice sums to 0. Each partial
/// sum must fit in a 32-bit integer, as the native addition demands.
pub fn sum_array(arr: &[i32]) -> (r: i32)
    requires
        forall|k: int|
            0 <= k <= arr@.len() ==> i32::MIN <= #[trigger] sum_of(arr@.subrange(0, k))
                <= i32::MAX,
    ensures
        r == sum_of(arr@),
        arr@.len() == 0 ==> r == 0,
{
    let mut acc: i32 = 0;
    let mut i: usize = 0;
    while i < arr.len()
        invariant
            i <= arr@.len(),
            acc == sum_of(arr@.subrange(0, i as int)),
            forall|k: int|
                0 <= k <= arr@.len() ==> i32::MIN <= #[trigger] sum_of(arr@.subrange(0, k))
                    <= i32::MAX,
        decreases arr@.len() - i,
    {
        proof {
            assert(arr@.subrange(0, i + 1).drop_last() =~= arr@.subrange(0, i as int));
            assert(arr@.subrange(0, i + 1).last() == arr@[i as int]);
            assert(sum_of(arr@.subrange(0, i + 1)) == sum_of(arr@.subrange(0, i as int))
                + arr@[i as int]);
        }
        acc = acc + arr[i];
        i = i + 1;
    }
    proof {
        assert(arr@.subrange(0, arr@.len() as int) =~= arr@);
    }
    acc
}

/// Law: reversing a string twice gives back the original text. Stated over
/// the code-point sequences that `reverse_string` is specified on.
pub proof fn lemma_reverse_round_trip(s: Seq<char>)
    ensures
        s.reverse().reverse() == s,
{
    assert(s.reverse().reverse() =~= s);
}

} // verus!
