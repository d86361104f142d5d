//! Daily seed derivation: a multiplicative rolling hash over a user
//! identifier followed by the decimal digits of a calendar day code.
use vstd::prelude::*;
use vstd::string::StringSliceAdditionalSpecFns;
use vstd::arithmetic::div_mod::{lemma_div_denominator, lemma_fundamental_div_mod_converse, lemma_mul_mod_noop_left, lemma_add_mod_noop, lemma_mod_equivalence};
use crate::counter::digits_value;

verus! {

/// The hash state space: arithmetic wraps modulo 2^32.
pub open spec fn hash_modulus() -> int {
    0x1_0000_0000
}

/// One step of the rolling hash: `h * 31 + b`, wrapped to 32 bits.
pub open spec fn hash_step(h: u32, b: u8) -> u32 {
    ((h as int * 31 + b as int) % hash_modulus()) as u32
}

/// The rolling hash of `bytes`, starting from the state `start`.
pub open spec fn hash_from(start: u32, bytes: Seq<u8>) -> u32
    decreases bytes.len(),
{
    if bytes.len() == 0 {
        start
    } else {
        hash_step(hash_from(start, bytes.drop_last()), bytes.last())
    }
}

/// The rolling hash of `bytes` from the zero state.
pub open spec fn rolling_hash(bytes: Seq<u8>) -> u32 {
    hash_from(0, bytes)
}

/// The ASCII decimal digits of `n`, most significant first, with no leading zero.
pub open spec fn decimal_digits(n: nat) -> Seq<u8>
    decreases n,
{
    if n < 10 {
        seq![(48 + n) as u8]
    } else {
        decimal_digits(n / 10).push((48 + n % 10) as u8)
    }
}

/// The day code of a calendar date: `year * 10000 + month * 100 + day`.
pub open spec fn day_code_of(year: u32, month: u32, day: u32) -> int {
    year as int * 10000 + month as int * 100 + day as int
}

/// The seed of a user on a day: the rolling hash over the user's bytes
/// followed by the digits of the day code.
pub open spec fn daily_seed(user: Seq<u8>, year: u32, month: u32, day: u32) -> u32 {
    rolling_hash(user + decimal_digits(day_code_of(year, month, day) as nat))
}

/// Hashing a concatenation continues from the hash of the first part.
pub proof fn lemma_hash_concat(start: u32, a: Seq<u8>, b: Seq<u8>)
    ensures
        hash_from(start, a + b) == hash_from(hash_from(start, a), b),
    decreases b.len(),
{
    if b.len() == 0 {
        assert(a + b =~= a);
    } else {
        assert((a + b).drop_last() =~= a + b.drop_last());
        assert((a + b).last() == b.last());
        lemma_hash_concat(start, a, b.drop_last());
    }
}

/// One hash step on machine integers.
fn step(h: u32, b: u8) -> (r: u32)
    ensures
        r == hash_step(h, b),
{
    let m = h.wrapping_mul(31);
    let r = m.wrapping_add(b as u32);
    assert(m == (h as int * 31) % hash_modulus());
    assert(r == hash_step(h, b)) by (nonlinear_arith)
        requires
            m == (h as int * 31) % hash_modulus(),
            hash_modulus() == 0x1_0000_0000,
            r == (if m + b > u32::MAX { (m + b - 0x1_0000_0000) as u32 } else { (m + b) as u32 }),
    ;
    r
}

/// Continues the rolling hash from `start` over `bytes`.
pub fn hash_bytes(start: u32, bytes: &[u8]) -> (r: u32)
    ensures
        r == hash_from(start, bytes@),
{
    let mut h: u32 = start;
    let mut i: usize = 0;
    while i < bytes.len()
        invariant
            i <= bytes@.len(),
            h == hash_from(start, bytes@.subrange(0, i as int)),
        decreases bytes@.len() - i,
    {
        assert(bytes@.subrange(0, i as int + 1).drop_last() =~= bytes@.subrange(0, i as int));
        h = step(h, bytes[i]);
        i = i + 1;
    }
    assert(bytes@.subrange(0, i as int) =~= bytes@);
    h
}

/// The day code of a calendar date (month counted from 1).
pub fn day_code(year: u32, month: u32, day: u32) -> (r: u32)
    requires
        day_code_of(year, month, day) <= u32::MAX,
    ensures
        r == day_code_of(year, month, day),
{
    year * 10000 + month * 100 + day
}

/// The ASCII decimal digits of `n`.
pub fn digits_of(n: u32) -> (r: Vec<u8>)
    ensures
        r@ == decimal_digits(n as nat),
{
    let mut rev: Vec<u8> = Vec::new();
    let mut k: u32 = n;
    // Collect digits least significant first, then reverse.
    while k >= 10
        invariant
            decimal_digits(n as nat) == decimal_digits(k as nat) + rev@.reverse(),
        decreases k,
    {
        let d: u8 = (48 + k % 10) as u8;
        proof {
            assert(decimal_digits(k as nat) == decimal_digits((k / 10) as nat).push(d));
            assert(rev@.push(d).reverse() =~= seq![d] + rev@.reverse());
            assert(decimal_digits((k / 10) as nat).push(d) =~= decimal_digits((k / 10) as nat) + seq![d]);
            assert(decimal_digits((k / 10) as nat) + seq![d] + rev@.reverse()
                =~= decimal_digits((k / 10) as nat) + (seq![d] + rev@.reverse()));
        }
        rev.push(d);
        k = k / 10;
    }
    let mut r: Vec<u8> = Vec::new();
    r.push((48 + k) as u8);
    let mut j: usize = rev.len();
    while j > 0
        invariant
            j <= rev@.len(),
            k < 10,
            decimal_digits(n as nat) == seq![(48 + k) as u8] + rev@.reverse(),
            r@ == seq![(48 + k) as u8] + rev@.subrange(j as int, rev@.len() as int).reverse(),
        decreases j,
    {
        j = j - 1;
        proof {
            assert(rev@.subrange(j as int, rev@.len() as int).reverse()
                =~= rev@.subrange(j as int + 1, rev@.len() as int).reverse().push(rev@[j as int]));
        }
        r.push(rev[j]);
    }
    assert(rev@.subrange(0, rev@.len() as int) =~= rev@);
    r
}

/// The seed of `user_id` on the given calendar day (month counted from 1):
/// the rolling hash over the UTF-8 bytes of `user_id` followed by the decimal
/// digits of `year * 10000 + month * 100 + day`.
pub fn generate_daily_seed(user_id: &str, year: u32, month: u32, day: u32) -> (r: u32)
    requires
        day_code_of(year, month, day) <= u32::MAX,
    ensures
        r == daily_seed(user_id.spec_bytes(), year, month, day),
{
    let code = day_code(year, month, day);
    let digits = digits_of(code);
    let h = hash_bytes(0, user_id.as_bytes());
    let r = hash_bytes(h, digits.as_slice());
    proof {
        lemma_hash_concat(0, user_id.spec_bytes(), digits@);
    }
    r
}

/// `31^n`.
pub open spec fn pow31(n: nat) -> int
    decreases n,
{
    if n == 0 {
        1
    } else {
        31 * pow31((n - 1) as nat)
    }
}

/// `10^n`.
pub open spec fn pow10(n: nat) -> nat
    decreases n,
{
    if n == 0 {
        1
    } else {
        10 * pow10((n - 1) as nat)
    }
}

/// The unreduced sum that the rolling hash accumulates over `s`.
pub open spec fn hash_sum(s: Seq<u8>) -> int
    decreases s.len(),
{
    if s.len() == 0 {
        0
    } else {
        hash_sum(s.drop_last()) * 31 + s.last() as int
    }
}

/// The last `k` decimal digits of `n`, most significant first.
pub open spec fn tail_digits(n: nat, k: nat) -> Seq<u8>
    decreases k,
{
    if k == 0 {
        Seq::empty()
    } else {
        tail_digits(n / 10, (k - 1) as nat).push((48 + n % 10) as u8)
    }
}

/// Whether every byte of `s` is an ASCII decimal digit.
pub open spec fn digit_bytes(s: Seq<u8>) -> bool {
    forall|i: int| 0 <= i < s.len() ==> 48 <= #[trigger] s[i] <= 57
}

proof fn lemma_hash_closed_form(h: u32, s: Seq<u8>)
    ensures
        hash_from(h, s) as int == (h as int * pow31(s.len()) + hash_sum(s)) % hash_modulus(),
    decreases s.len(),
{
    if s.len() > 0 {
        let t = s.drop_last();
        lemma_hash_closed_form(h, t);
        let a = h as int * pow31(t.len()) + hash_sum(t);
        let m = hash_modulus();
        lemma_mul_mod_noop_left(a, 31, m);
        lemma_add_mod_noop((a % m) * 31, s.last() as int, m);
        lemma_add_mod_noop(a * 31, s.last() as int, m);
        assert(a * 31 + s.last() as int == h as int * pow31(s.len()) + hash_sum(s)) by (nonlinear_arith)
            requires
                a == h as int * pow31(t.len()) + hash_sum(t),
                pow31(s.len()) == 31 * pow31(t.len()),
                hash_sum(s) == hash_sum(t) * 31 + s.last() as int,
        ;
    }
}

proof fn lemma_hash_sum_bound(s: Seq<u8>)
    requires
        digit_bytes(s),
    ensures
        0 <= 30 * hash_sum(s) <= 57 * (pow31(s.len()) - 1),
    decreases s.len(),
{
    if s.len() > 0 {
        let t = s.drop_last();
        assert(digit_bytes(t));
        lemma_hash_sum_bound(t);
        let b = s.last() as int;
        assert(48 <= s[s.len() - 1] <= 57);
        assert(0 <= 30 * hash_sum(s) <= 57 * (pow31(s.len()) - 1)) by (nonlinear_arith)
            requires
                0 <= 30 * hash_sum(t) <= 57 * (pow31(t.len()) - 1),
                hash_sum(s) == hash_sum(t) * 31 + b,
                pow31(s.len()) == 31 * pow31(t.len()),
                48 <= b <= 57,
        ;
    }
}

proof fn lemma_hash_sum_injective(s: Seq<u8>, t: Seq<u8>)
    requires
        digit_bytes(s),
        digit_bytes(t),
        s.len() == t.len(),
        hash_sum(s) == hash_sum(t),
    ensures
        s == t,
    decreases s.len(),
{
    if s.len() > 0 {
        let (s0, t0) = (s.drop_last(), t.drop_last());
        assert(48 <= s[s.len() - 1] <= 57);
        assert(48 <= t[t.len() - 1] <= 57);
        let (a, b) = (s.last() as int, t.last() as int);
        assert(hash_sum(s0) == hash_sum(t0) && a == b) by (nonlinear_arith)
            requires
                hash_sum(s0) * 31 + a == hash_sum(t0) * 31 + b,
                48 <= a <= 57,
                48 <= b <= 57,
        ;
        assert(digit_bytes(s0));
        assert(digit_bytes(t0));
        lemma_hash_sum_injective(s0, t0);
        assert(s =~= s0.push(s.last()));
        assert(t =~= t0.push(t.last()));
    }
}

proof fn lemma_tail_digits_shape(n: nat, k: nat)
    ensures
        tail_digits(n, k).len() == k,
        digit_bytes(tail_digits(n, k)),
    decreases k,
{
    if k > 0 {
        lemma_tail_digits_shape(n / 10, (k - 1) as nat);
    }
}

proof fn lemma_split_digits(n: nat, k: nat)
    requires
        n >= pow10(k),
    ensures
        decimal_digits(n) == decimal_digits(n / pow10(k)) + tail_digits(n, k),
    decreases k,
{
    if k == 0 {
        assert(decimal_digits(n) + Seq::<u8>::empty() =~= decimal_digits(n));
    } else {
        let p = pow10((k - 1) as nat);
        assert(p >= 1) by {
            lemma_pow10_positive((k - 1) as nat);
        }
        assert(n / 10 >= p) by (nonlinear_arith)
            requires
                n >= 10 * p,
        ;
        lemma_split_digits(n / 10, (k - 1) as nat);
        lemma_div_denominator(n as int, 10, p as int);
        let d = (48 + n % 10) as u8;
        assert(decimal_digits(n) == decimal_digits(n / 10).push(d));
        assert((decimal_digits(n / 10 / p) + tail_digits(n / 10, (k - 1) as nat)).push(d)
            =~= decimal_digits(n / 10 / p) + tail_digits(n / 10, (k - 1) as nat).push(d));
    }
}

proof fn lemma_pow10_positive(k: nat)
    ensures
        pow10(k) >= 1,
    decreases k,
{
    if k > 0 {
        lemma_pow10_positive((k - 1) as nat);
    }
}

proof fn lemma_digits_value(n: nat)
    ensures
        digits_value(decimal_digits(n)) == n,
    decreases n,
{
    if n >= 10 {
        lemma_digits_value(n / 10);
        let s = decimal_digits(n);
        assert(s.drop_last() == decimal_digits(n / 10));
        assert(s.last() as int - 48 == n % 10);
        assert(n == (n / 10) * 10 + n % 10);
    } else {
        assert(decimal_digits(n).drop_last() =~= Seq::<u8>::empty());
        assert(decimal_digits(n).last() as int - 48 == n);
        assert(digits_value(decimal_digits(n).drop_last()) == 0);
    }
}

/// A calendar date with a four-digit year and month and day in range.
pub open spec fn four_digit_date(year: u32, month: u32, day: u32) -> bool {
    1000 <= year <= 9999 && 1 <= month <= 12 && 1 <= day <= 31
}

/// The codes of two different four-digit dates of one century differ and
/// share their first two digits.
proof fn lemma_codes_of_century(y1: u32, m1: u32, d1: u32, y2: u32, m2: u32, d2: u32)
    requires
        four_digit_date(y1, m1, d1),
        four_digit_date(y2, m2, d2),
        y1 / 100 == y2 / 100,
        (y1, m1, d1) != (y2, m2, d2),
    ensures
        day_code_of(y1, m1, d1) != day_code_of(y2, m2, d2),
        day_code_of(y1, m1, d1) >= pow10(6),
        day_code_of(y2, m2, d2) >= pow10(6),
        day_code_of(y1, m1, d1) as nat / pow10(6) == day_code_of(y2, m2, d2) as nat / pow10(6),
{
    let c1 = day_code_of(y1, m1, d1);
    let c2 = day_code_of(y2, m2, d2);
    lemma_fundamental_div_mod_converse(c1, 100, y1 as int * 100 + m1 as int, d1 as int);
    lemma_fundamental_div_mod_converse(c2, 100, y2 as int * 100 + m2 as int, d2 as int);
    lemma_fundamental_div_mod_converse(y1 as int * 100 + m1 as int, 100, y1 as int, m1 as int);
    lemma_fundamental_div_mod_converse(y2 as int * 100 + m2 as int, 100, y2 as int, m2 as int);
    assert(pow10(6) == 1000000) by {
        reveal_with_fuel(pow10, 7);
    }
    let q = y1 / 100;
    assert(y1 == q * 100 + y1 % 100);
    assert(y2 == q * 100 + y2 % 100);
    lemma_fundamental_div_mod_converse(c1, 1000000, q as int, c1 - q * 1000000);
    lemma_fundamental_div_mod_converse(c2, 1000000, q as int, c2 - q * 1000000);
}

/// Six digits hashed from one state give one state only once.
proof fn lemma_six_digits_injective(g: u32, t1: Seq<u8>, t2: Seq<u8>)
    requires
        t1.len() == 6,
        t2.len() == 6,
        digit_bytes(t1),
        digit_bytes(t2),
        hash_from(g, t1) == hash_from(g, t2),
    ensures
        t1 == t2,
{
    lemma_hash_closed_form(g, t1);
    lemma_hash_closed_form(g, t2);
    lemma_hash_sum_bound(t1);
    lemma_hash_sum_bound(t2);
    assert(pow31(6) == 887503681) by {
        reveal_with_fuel(pow31, 7);
    }
    let x = g as int * 887503681;
    let m = hash_modulus();
    let e = hash_sum(t1) - hash_sum(t2);
    lemma_mod_equivalence(x + hash_sum(t1), x + hash_sum(t2), m);
    assert((x + hash_sum(t1)) - (x + hash_sum(t2)) == e);
    assert(e % m == 0);
    if e >= 0 {
        lemma_fundamental_div_mod_converse(e, m, 0, e);
    } else {
        lemma_fundamental_div_mod_converse(e, m, -1, e + m);
    }
    lemma_hash_sum_injective(t1, t2);
}

/// For one user, two different dates of the same century never share a
/// seed: the seed changes from one day to the next.
pub proof fn lemma_daily_seed_changes(
    user: Seq<u8>,
    y1: u32,
    m1: u32,
    d1: u32,
    y2: u32,
    m2: u32,
    d2: u32,
)
    requires
        four_digit_date(y1, m1, d1),
        four_digit_date(y2, m2, d2),
        y1 / 100 == y2 / 100,
        (y1, m1, d1) != (y2, m2, d2),
    ensures
        daily_seed(user, y1, m1, d1) != daily_seed(user, y2, m2, d2),
{
    lemma_codes_of_century(y1, m1, d1, y2, m2, d2);
    let n1 = day_code_of(y1, m1, d1) as nat;
    let n2 = day_code_of(y2, m2, d2) as nat;
    lemma_split_digits(n1, 6);
    lemma_split_digits(n2, 6);
    let p = decimal_digits(n1 / pow10(6));
    let t1 = tail_digits(n1, 6);
    let t2 = tail_digits(n2, 6);
    lemma_tail_digits_shape(n1, 6);
    lemma_tail_digits_shape(n2, 6);
    lemma_hash_concat(0, user, decimal_digits(n1));
    lemma_hash_concat(0, user, decimal_digits(n2));
    let h = hash_from(0, user);
    lemma_hash_concat(h, p, t1);
    lemma_hash_concat(h, p, t2);
    if daily_seed(user, y1, m1, d1) == daily_seed(user, y2, m2, d2) {
        lemma_six_digits_injective(hash_from(h, p), t1, t2);
        lemma_digits_value(n1);
        lemma_digits_value(n2);
    }
}

/// The seed depends on the identifier's text and the date alone: two
/// identifiers with the same characters give the same seed on every day.
pub proof fn lemma_daily_seed_deterministic(a: &str, b: &str, year: u32, month: u32, day: u32)
    requires
        a@ == b@,
    ensures
        daily_seed(a.spec_bytes(), year, month, day) == daily_seed(b.spec_bytes(), year, month, day),
{
}

} // verus!
