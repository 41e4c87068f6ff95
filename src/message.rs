use vstd::prelude::*;

verus! {

/// The ASCII code of the separator between the email and the timestamp.
pub const SEPARATOR: u8 = 58;

/// The ASCII code of the digit `0`.
pub const DIGIT_ZERO: u8 = 48;

/// The decimal digits of `n` as ASCII bytes, most significant first, with no
/// leading zeros (`0` is the single digit `0`).
pub open spec fn decimal_spec(n: nat) -> Seq<u8>
    decreases n,
{
    if n < 10 {
        seq![(DIGIT_ZERO + n) as u8]
    } else {
        decimal_spec(n / 10).push((DIGIT_ZERO + n % 10) as u8)
    }
}

/// The message that is hashed: the email's bytes, a colon, then the
/// timestamp in decimal.
pub open spec fn canonical_spec(email: Seq<u8>, timestamp: u64) -> Seq<u8> {
    email + seq![SEPARATOR] + decimal_spec(timestamp as nat)
}

proof fn lemma_decimal_digits(n: nat)
    ensures
        decimal_spec(n).len() >= 1,
        n < 10 ==> decimal_spec(n).len() == 1,
        n >= 10 ==> decimal_spec(n).len() >= 2,
        forall|i: int|
            0 <= i < decimal_spec(n).len() ==> DIGIT_ZERO <= #[trigger] decimal_spec(n)[i] < DIGIT_ZERO + 10,
    decreases n,
{
    if n >= 10 {
        lemma_decimal_digits(n / 10);
    }
}

proof fn lemma_decimal_injective(a: nat, b: nat)
    requires
        decimal_spec(a) == decimal_spec(b),
    ensures
        a == b,
    decreases a,
{
    lemma_decimal_digits(a);
    lemma_decimal_digits(b);
    if a >= 10 && b >= 10 {
        let da = decimal_spec(a);
        let db = decimal_spec(b);
        assert(da.last() == db.last());
        assert(da.drop_last() =~= decimal_spec(a / 10));
        assert(db.drop_last() =~= decimal_spec(b / 10));
        lemma_decimal_injective(a / 10, b / 10);
        assert(da.last() == (DIGIT_ZERO + a % 10) as u8);
        assert(db.last() == (DIGIT_ZERO + b % 10) as u8);
        assert(a % 10 == b % 10);
        assert(a == 10 * (a / 10) + a % 10);
        assert(b == 10 * (b / 10) + b % 10);
        assert(a == b);
    } else if a < 10 && b < 10 {
        assert(decimal_spec(a)[0] == decimal_spec(b)[0]);
        assert(decimal_spec(a)[0] == (DIGIT_ZERO + a) as u8);
        assert(decimal_spec(b)[0] == (DIGIT_ZERO + b) as u8);
    } else {
        assert(decimal_spec(a).len() != decimal_spec(b).len());
    }
}

/// Distinct (email, timestamp) pairs give distinct messages. The decimal
/// part never holds a colon, so the last colon of a message marks where the
/// email ends, even when the email holds colons itself.
pub proof fn canonical_message_injective(e1: Seq<u8>, t1: u64, e2: Seq<u8>, t2: u64)
    requires
        canonical_spec(e1, t1) == canonical_spec(e2, t2),
    ensures
        e1 == e2,
        t1 == t2,
{
    let d1 = decimal_spec(t1 as nat);
    let d2 = decimal_spec(t2 as nat);
    let m = canonical_spec(e1, t1);
    lemma_decimal_digits(t1 as nat);
    lemma_decimal_digits(t2 as nat);
    if d1.len() < d2.len() {
        let k = m.len() - d1.len() - 1;
        assert(m[k] == SEPARATOR);
        assert(canonical_spec(e2, t2)[k] == d2[k - e2.len() - 1]);
    } else if d2.len() < d1.len() {
        let k = m.len() - d2.len() - 1;
        assert(canonical_spec(e2, t2)[k] == SEPARATOR);
        assert(m[k] == d1[k - e1.len() - 1]);
    } else {
        assert(e1 =~= m.subrange(0, e1.len() as int));
        assert(e2 =~= canonical_spec(e2, t2).subrange(0, e2.len() as int));
        assert(d1 =~= m.subrange(m.len() - d1.len(), m.len() as int));
        assert(d2 =~= canonical_spec(e2, t2).subrange(m.len() - d2.len(), m.len() as int));
        lemma_decimal_injective(t1 as nat, t2 as nat);
    }
}

/// Appends the decimal digits of `n` to `out`.
fn push_decimal(out: &mut Vec<u8>, n: u64)
    ensures
        final(out)@ == old(out)@ + decimal_spec(n as nat),
    decreases n,
{
    if n >= 10 {
        push_decimal(out, n / 10);
    }
    out.push(DIGIT_ZERO + (n % 10) as u8);
    proof {
        if n >= 10 {
            assert(decimal_spec(n as nat) == decimal_spec((n / 10) as nat).push(
                (DIGIT_ZERO + n % 10) as u8,
            ));
        }
    }
    assert(final(out)@ =~= old(out)@ + decimal_spec(n as nat));
}

/// The bytes that are hashed for `(email, timestamp)`: `email ":" timestamp`,
/// the timestamp in decimal.
pub fn canonical_message(email: &[u8], timestamp: u64) -> (r: Vec<u8>)
    ensures
        r@ == canonical_spec(email@, timestamp),
{
    let mut out: Vec<u8> = Vec::new();
    let mut i: usize = 0;
    while i < email.len()
        invariant
            i <= email@.len(),
            out@ == email@.subrange(0, i as int),
        decreases email@.len() - i,
    {
        out.push(email[i]);
        i = i + 1;
        assert(out@ =~= email@.subrange(0, i as int));
    }
    assert(out@ =~= email@);
    out.push(SEPARATOR);
    push_decimal(&mut out, timestamp);
    assert(out@ =~= canonical_spec(email@, timestamp));
    out
}

} // verus!
