//! Canonical base-ten text of signed 64-bit integers, as ASCII bytes.
use vstd::prelude::*;

verus! {

/// Ten to the power `k`.
pub open spec fn pow10(k: nat) -> nat
    decreases k,
{
    if k == 0 {
        1
    } else {
        10 * pow10((k - 1) as nat)
    }
}

pub open spec fn is_digit(b: u8) -> bool {
    48 <= b <= 57
}

/// The digits of `n`, most significant first, without leading zeros.
pub open spec fn digits_of(n: nat) -> Seq<u8>
    decreases n,
{
    if n < 10 {
        seq![(48 + n) as u8]
    } else {
        digits_of(n / 10).push((48 + n % 10) as u8)
    }
}

/// The canonical decimal text of `n`: a minus sign for negatives, then the digits.
pub open spec fn decimal_of(n: int) -> Seq<u8> {
    if n < 0 {
        seq![45u8] + digits_of((-n) as nat)
    } else {
        digits_of(n as nat)
    }
}

/// The number that a string of digits denotes.
pub open spec fn value_of(s: Seq<u8>) -> nat
    decreases s.len(),
{
    if s.len() == 0 {
        0
    } else {
        value_of(s.drop_last()) * 10 + (s.last() - 48) as nat
    }
}

/// A non-empty string of digits without a superfluous leading zero.
pub open spec fn canonical_digits(s: Seq<u8>) -> bool {
    &&& s.len() >= 1
    &&& forall|i: int| 0 <= i < s.len() ==> is_digit(#[trigger] s[i])
    &&& (s[0] == 48 ==> s.len() == 1)
}

proof fn lemma_digits_of(n: nat)
    ensures
        canonical_digits(digits_of(n)),
        value_of(digits_of(n)) == n,
        n >= 1 ==> digits_of(n)[0] != 48,
    decreases n,
{
    if n < 10 {
        assert(digits_of(n).drop_last() =~= Seq::<u8>::empty());
        assert(digits_of(n).last() - 48 == n);
        assert(value_of(digits_of(n)) == value_of(digits_of(n).drop_last()) * 10 + (digits_of(n).last() - 48) as nat);
    } else {
        lemma_digits_of(n / 10);
        let d = digits_of(n / 10);
        let b = (48 + n % 10) as u8;
        assert(digits_of(n).drop_last() =~= d);
        assert(digits_of(n).last() == b);
        assert(b - 48 == n % 10);
        assert(digits_of(n)[0] == d[0]);
        assert(n / 10 * 10 + n % 10 == n);
        assert(value_of(digits_of(n)) == value_of(d) * 10 + (b - 48) as nat);
    }
}

proof fn lemma_digits_len(n: nat, k: nat)
    requires
        k >= 1,
        n < pow10(k),
    ensures
        digits_of(n).len() <= k,
    decreases n,
{
    if n >= 10 {
        assert(k >= 2) by {
            if k == 1 {
                assert(pow10(0) == 1);
            }
        }
        let k1 = (k - 1) as nat;
        assert(pow10(k) == 10 * pow10(k1));
        assert(n / 10 < pow10(k1)) by (nonlinear_arith)
            requires
                n < 10 * pow10(k1),
        ;
        lemma_digits_len(n / 10, k1);
    }
}

proof fn lemma_value_zero(s: Seq<u8>)
    requires
        forall|i: int| 0 <= i < s.len() ==> is_digit(#[trigger] s[i]),
        value_of(s) == 0,
        s.len() >= 1,
    ensures
        s[0] == 48,
    decreases s.len(),
{
    let p = s.drop_last();
    if s.len() > 1 {
        assert forall|i: int| 0 <= i < p.len() implies is_digit(#[trigger] p[i]) by {
            assert(p[i] == s[i]);
        }
        lemma_value_zero(p);
    }
}

proof fn lemma_canonical_round_trip(s: Seq<u8>)
    requires
        canonical_digits(s),
    ensures
        digits_of(value_of(s)) == s,
    decreases s.len(),
{
    let p = s.drop_last();
    let d = (s.last() - 48) as nat;
    if s.len() == 1 {
        assert(p =~= Seq::<u8>::empty());
        assert(digits_of(value_of(s)) =~= s);
    } else {
        assert forall|i: int| 0 <= i < p.len() implies is_digit(#[trigger] p[i]) by {
            assert(p[i] == s[i]);
        }
        assert(p[0] == s[0]);
        assert(canonical_digits(p));
        if value_of(p) == 0 {
            lemma_value_zero(p);
        }
        lemma_canonical_round_trip(p);
        let v = value_of(s);
        assert(v == value_of(p) * 10 + d);
        assert(d < 10);
        assert(v / 10 == value_of(p) && v % 10 == d) by (nonlinear_arith)
            requires
                v == value_of(p) * 10 + d,
                d < 10,
        ;
        assert(digits_of(v) =~= s);
    }
}

proof fn lemma_value_bound(s: Seq<u8>)
    requires
        forall|i: int| 0 <= i < s.len() ==> is_digit(#[trigger] s[i]),
    ensures
        value_of(s) < pow10(s.len()),
    decreases s.len(),
{
    if s.len() > 0 {
        let p = s.drop_last();
        assert forall|i: int| 0 <= i < p.len() implies is_digit(#[trigger] p[i]) by {
            assert(p[i] == s[i]);
        }
        lemma_value_bound(p);
        let a = value_of(p);
        let q = pow10(p.len());
        let d = (s.last() - 48) as nat;
        assert(pow10(s.len()) == 10 * q);
        assert(a * 10 + d < 10 * q) by (nonlinear_arith)
            requires
                a < q,
                d < 10,
        ;
    }
}

/// What a caller needs to know of the text of a 64-bit integer.
pub proof fn lemma_decimal_shape(n: int)
    requires
        i64::MIN <= n <= i64::MAX,
    ensures
        decimal_of(n).len() >= 1,
        (decimal_of(n)[0] == 45) == (n < 0),
        forall|i: int| 0 <= i < decimal_of(n).len() ==> (is_digit(#[trigger] decimal_of(n)[i])
            || decimal_of(n)[i] == 45),
        n < 0 ==> canonical_digits(decimal_of(n).drop_first()) && value_of(
            decimal_of(n).drop_first(),
        ) == -n && decimal_of(n).drop_first().len() <= 19,
        n >= 0 ==> canonical_digits(decimal_of(n)) && value_of(decimal_of(n)) == n
            && decimal_of(n).len() <= 19,
{
    lemma_pow10_19();
    let m: nat = if n < 0 {
        (-n) as nat
    } else {
        n as nat
    };
    lemma_digits_of(m);
    lemma_digits_len(m, 19);
    if n < 0 {
        assert(decimal_of(n).drop_first() =~= digits_of(m));
        assert forall|i: int| 1 <= i < decimal_of(n).len() implies is_digit(
            #[trigger] decimal_of(n)[i],
        ) by {
            assert(decimal_of(n)[i] == digits_of(m)[i - 1]);
        }
    }
}

/// Decimal text is one-to-one on the integers.
pub proof fn lemma_decimal_injective(a: int, b: int)
    requires
        i64::MIN <= a <= i64::MAX,
        i64::MIN <= b <= i64::MAX,
        decimal_of(a) == decimal_of(b),
    ensures
        a == b,
{
    lemma_decimal_shape(a);
    lemma_decimal_shape(b);
}

/// Appends the decimal text of `n` to `out`.
pub fn push_decimal(out: &mut Vec<u8>, n: i64)
    ensures
        final(out)@ == old(out)@ + decimal_of(n as int),
{
    let mut m: u64 = if n < 0 {
        if n == i64::MIN {
            9223372036854775808u64
        } else {
            (-n) as u64
        }
    } else {
        n as u64
    };
    let ghost m0: nat = m as nat;
    let ghost start = out@;
    let mut rev: Vec<u8> = Vec::new();
    let ghost mut suffix: Seq<u8> = Seq::empty();
    while m >= 10
        invariant
            digits_of(m0) == digits_of(m as nat) + suffix,
            rev@.len() == suffix.len(),
            forall|i: int| 0 <= i < rev@.len() ==> rev@[i] == suffix[suffix.len() - 1 - i],
        decreases m,
    {
        let b: u8 = (48 + m % 10) as u8;
        proof {
            assert(digits_of(m as nat) == digits_of((m / 10) as nat).push(b));
            assert(digits_of(m as nat) + suffix =~= digits_of((m / 10) as nat) + (seq![b] + suffix));
            suffix = seq![b] + suffix;
        }
        rev.push(b);
        m = m / 10;
    }
    let b: u8 = (48 + m) as u8;
    proof {
        assert(digits_of(m as nat) + suffix =~= seq![b] + suffix);
        suffix = seq![b] + suffix;
    }
    rev.push(b);
    assert(digits_of(m0) == suffix);
    if n < 0 {
        out.push(45u8);
    }
    let ghost head = out@;
    assert(head + digits_of(m0) =~= start + decimal_of(n as int));
    let mut j: usize = rev.len();
    while j > 0
        invariant
            j <= rev@.len(),
            rev@.len() == suffix.len(),
            forall|i: int| 0 <= i < rev@.len() ==> rev@[i] == suffix[suffix.len() - 1 - i],
            out@ == head + suffix.subrange(0, rev@.len() - j),
        decreases j,
    {
        j = j - 1;
        out.push(rev[j]);
        assert(out@ =~= head + suffix.subrange(0, rev@.len() - j));
    }
    assert(suffix.subrange(0, rev@.len() as int) =~= suffix);
}

/// Reads the integer whose canonical decimal text is `s[lo..hi]`, if there is one.
pub fn parse_decimal(s: &[u8], lo: usize, hi: usize) -> (r: Option<i64>)
    requires
        lo <= hi <= s@.len(),
    ensures
        match r {
            Some(n) => s@.subrange(lo as int, hi as int) == decimal_of(n as int),
            None => forall|n: i64| s@.subrange(lo as int, hi as int) != decimal_of(n as int),
        },
{
    let ghost text = s@.subrange(lo as int, hi as int);
    proof {
        lemma_pow10_19();
    }
    let neg = lo < hi && s[lo] == 45u8;
    let start: usize = if neg {
        lo + 1
    } else {
        lo
    };
    let ghost body = s@.subrange(start as int, hi as int);
    assert(neg ==> text =~= seq![45u8] + body);
    assert(!neg ==> text =~= body);
    if start == hi || hi - start > 19 || (s[start] == 48u8 && hi - start > 1) {
        assert forall|n: i64| text != decimal_of(n as int) by {
            if text == decimal_of(n as int) {
                lemma_decimal_shape(n as int);
                if n < 0 {
                    assert(text.drop_first() =~= body);
                } else {
                }
            }
        }
        return None;
    }
    let mut v: u64 = 0;
    let mut i: usize = start;
    while i < hi
        invariant
            lo <= start <= i <= hi <= s@.len(),
            hi - start <= 19,
            body == s@.subrange(start as int, hi as int),
            text == s@.subrange(lo as int, hi as int),
            neg ==> text == seq![45u8] + body,
            neg == (lo < hi && s@[lo as int] == 45u8),
            !neg ==> text == body,
            forall|k: int| start <= k < i ==> is_digit(#[trigger] s@[k]),
            v as nat == value_of(s@.subrange(start as int, i as int)),
            v < pow10((i - start) as nat),
            pow10(19) == 10000000000000000000nat,
        decreases hi - i,
    {
        let b = s[i];
        if b < 48u8 || b > 57u8 {
            assert forall|n: i64| text != decimal_of(n as int) by {
                if text == decimal_of(n as int) {
                    lemma_decimal_shape(n as int);
                    if n < 0 {
                        assert(text.drop_first() =~= body);
                    }
                    assert(body[i - start] == b);
                }
            }
            return None;
        }
        let ghost prev = s@.subrange(start as int, i as int);
        let ghost next = s@.subrange(start as int, i + 1);
        assert(next.drop_last() =~= prev);
        let ghost k = (i - start) as nat;
        assert(pow10(k + 1) == 10 * pow10(k));
        assert(k + 1 <= 19);
        assert(pow10(k + 1) <= pow10(19)) by {
            lemma_pow10_mono(k + 1, 19);
        }
        assert(v * 10 + (b - 48) < pow10(k + 1)) by (nonlinear_arith)
            requires
                v < pow10(k),
                pow10(k + 1) == 10 * pow10(k),
                b - 48 < 10,
        ;
        v = v * 10 + (b - 48) as u64;
        i = i + 1;
    }
    assert(s@.subrange(start as int, hi as int) == body);
    assert(canonical_digits(body)) by {
        assert forall|k: int| 0 <= k < body.len() implies is_digit(#[trigger] body[k]) by {
            assert(body[k] == s@[start + k]);
        }
    }
    proof {
        lemma_canonical_round_trip(body);
    }
    if neg {
        if v == 0 || v > 9223372036854775808u64 {
            assert forall|n: i64| text != decimal_of(n as int) by {
                if text == decimal_of(n as int) {
                    lemma_decimal_shape(n as int);
                    assert(text.drop_first() =~= body);
                }
            }
            return None;
        }
        let n: i64 = if v == 9223372036854775808u64 {
            i64::MIN
        } else {
            -(v as i64)
        };
        assert(decimal_of(n as int) =~= seq![45u8] + body);
        Some(n)
    } else {
        if v > 9223372036854775807u64 {
            assert forall|n: i64| text != decimal_of(n as int) by {
                if text == decimal_of(n as int) {
                    lemma_decimal_shape(n as int);
                }
            }
            return None;
        }
        Some(v as i64)
    }
}

proof fn lemma_pow10_19()
    ensures
        pow10(19) == 10000000000000000000nat,
{
    reveal_with_fuel(pow10, 20);
}

proof fn lemma_pow10_mono(a: nat, b: nat)
    requires
        a <= b,
    ensures
        pow10(a) <= pow10(b),
    decreases b,
{
    if a < b {
        lemma_pow10_mono(a, (b - 1) as nat);
    }
}

} // verus!
