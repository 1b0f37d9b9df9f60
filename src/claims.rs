//! The JSON text of a token's claims: `{"sub":"<subject>","exp":<expiry>}`.
use crate::decimal::{decimal_of, lemma_decimal_injective, lemma_decimal_shape, parse_decimal, push_decimal};
use vstd::prelude::*;

verus! {

/// The claims a token carries: its subject as decimal text and its expiry in Unix seconds.
pub struct Claims {
    pub sub: String,
    pub exp: i64,
}

/// `{"sub":"`
pub open spec fn sub_key() -> Seq<u8> {
    seq![123u8, 34, 115, 117, 98, 34, 58, 34]
}

/// `","exp":`
pub open spec fn exp_key() -> Seq<u8> {
    seq![34u8, 44, 34, 101, 120, 112, 34, 58]
}

/// The claims text for a subject and an expiry.
pub open spec fn claims_json(sub: int, exp: int) -> Seq<u8> {
    sub_key() + decimal_of(sub) + exp_key() + decimal_of(exp) + seq![125u8]
}

/// Whether `pat` occurs in `b` at `at`.
fn occurs_at(b: &[u8], at: usize, pat: &Vec<u8>) -> (r: bool)
    ensures
        r == (at + pat@.len() <= b@.len() && b@.subrange(at as int, at + pat@.len()) == pat@),
{
    if at > b.len() || pat.len() > b.len() - at {
        return false;
    }
    let blen = b.len();
    let mut i: usize = 0;
    while i < pat.len()
        invariant
            blen == b@.len(),
            at + pat@.len() <= b@.len(),
            i <= pat@.len(),
            forall|k: int| 0 <= k < i ==> b@[at + k] == pat@[k],
        decreases pat@.len() - i,
    {
        if b[at + i] != pat[i] {
            assert(b@.subrange(at as int, at + pat@.len())[i as int] != pat@[i as int]);
            return false;
        }
        i = i + 1;
    }
    assert(b@.subrange(at as int, at + pat@.len()) =~= pat@);
    true
}

/// Writes the claims text for a subject and an expiry.
pub fn write_claims(sub: i64, exp: i64) -> (r: Vec<u8>)
    ensures
        r@ == claims_json(sub as int, exp as int),
{
    let mut out: Vec<u8> = vec![123u8, 34, 115, 117, 98, 34, 58, 34];
    assert(out@ =~= sub_key());
    push_decimal(&mut out, sub);
    out.push(34u8);
    out.push(44u8);
    out.push(34u8);
    out.push(101u8);
    out.push(120u8);
    out.push(112u8);
    out.push(34u8);
    out.push(58u8);
    assert(out@ =~= sub_key() + decimal_of(sub as int) + exp_key());
    push_decimal(&mut out, exp);
    out.push(125u8);
    assert(out@ =~= claims_json(sub as int, exp as int));
    out
}

/// Reads the subject and expiry back from claims text, if it is exactly in the written form.
pub fn read_claims(b: &[u8]) -> (r: Option<(i64, i64)>)
    ensures
        match r {
            Some((sub, exp)) => b@ == claims_json(sub as int, exp as int),
            None => forall|sub: i64, exp: i64| b@ != claims_json(sub as int, exp as int),
        },
        forall|sub: i64, exp: i64| #[trigger] claims_json(sub as int, exp as int) == b@ ==> r == Some(
            (sub, exp),
        ),
{
    let sk: Vec<u8> = vec![123u8, 34, 115, 117, 98, 34, 58, 34];
    let ek: Vec<u8> = vec![34u8, 44, 34, 101, 120, 112, 34, 58];
    assert(sk@ =~= sub_key());
    assert(ek@ =~= exp_key());
    let n = b.len();
    if !occurs_at(b, 0, &sk) {
        assert forall|sub: i64, exp: i64| b@ != claims_json(sub as int, exp as int) by {
            if b@ == claims_json(sub as int, exp as int) {
                assert(b@.subrange(0, 8) =~= sub_key());
            }
        }
        return None;
    }
    let mut q: usize = 8;
    while q < n && b[q] != 34u8
        invariant
            8 <= q <= n == b@.len(),
            forall|k: int| 8 <= k < q ==> b@[k] != 34u8,
        decreases n - q,
    {
        q = q + 1;
    }
    // Facts about any claims text that `b` might be.
    assert forall|sub: i64, exp: i64| #[trigger] claims_json(sub as int, exp as int) == b@ implies q
        == 8 + decimal_of(sub as int).len() by {
        lemma_decimal_shape(sub as int);
        let d = decimal_of(sub as int);
        assert forall|k: int| 8 <= k < 8 + d.len() implies b@[k] != 34u8 by {
            assert(b@[k] == d[k - 8]);
        }
        assert(b@[8 + d.len() as int] == 34u8);
    }
    if q == n {
        return None;
    }
    let sub = match parse_decimal(b, 8, q) {
        Some(v) => v,
        None => {
            assert forall|s: i64, e: i64| b@ != claims_json(s as int, e as int) by {
                if b@ == claims_json(s as int, e as int) {
                    assert(b@.subrange(8, q as int) =~= decimal_of(s as int));
                }
            }
            return None;
        },
    };
    assert forall|s: i64, e: i64| #[trigger] claims_json(s as int, e as int) == b@ implies s == sub by {
        assert(b@.subrange(8, q as int) =~= decimal_of(s as int));
        lemma_decimal_injective(s as int, sub as int);
    }
    if !occurs_at(b, q, &ek) || n - q < 9 || b[n - 1] != 125u8 {
        assert forall|s: i64, e: i64| b@ != claims_json(s as int, e as int) by {
            if b@ == claims_json(s as int, e as int) {
                lemma_decimal_shape(e as int);
                assert(b@.subrange(q as int, q + 8) =~= exp_key());
            }
        }
        return None;
    }
    let exp = match parse_decimal(b, q + 8, n - 1) {
        Some(v) => v,
        None => {
            assert forall|s: i64, e: i64| b@ != claims_json(s as int, e as int) by {
                if b@ == claims_json(s as int, e as int) {
                    assert(b@.subrange(q + 8, n - 1) =~= decimal_of(e as int));
                }
            }
            return None;
        },
    };
    assert(b@ =~= sub_key() + b@.subrange(8, q as int) + exp_key() + b@.subrange(q + 8, n - 1)
        + seq![125u8]);
    assert forall|s: i64, e: i64| #[trigger] claims_json(s as int, e as int) == b@ implies e == exp by {
        assert(s == sub);
        assert(b@.subrange(q + 8, n - 1) =~= decimal_of(e as int));
        lemma_decimal_injective(e as int, exp as int);
    }
    Some((sub, exp))
}

} // verus!
