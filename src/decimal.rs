//! Canonical decimal text for unsigned integers, as used inside token claims.

use vstd::prelude::*;

verus! {

/// Is `b` an ASCII decimal digit?
pub open spec fn is_digit(b: u8) -> bool {
    48 <= b && b <= 57
}

/// The shortest decimal text of `n` (no sign, no leading zero).
pub open spec fn dec(n: nat) -> Seq<u8>
    decreases n,
{
    if n < 10 {
        seq![(n + 48) as u8]
    } else {
        dec(n / 10).push(((n % 10) + 48) as u8)
    }
}

/// The number that a run of digits denotes.
pub open spec fn digits_value(s: Seq<u8>) -> nat
    decreases s.len(),
{
    if s.len() == 0 {
        0
    } else {
        digits_value(s.drop_last()) * 10 + (s.last() - 48) as nat
    }
}

/// A run of digits in the form `dec` writes: non-empty, and no leading zero
/// unless it is the single digit `0`.
pub open spec fn is_canonical_digits(s: Seq<u8>) -> bool {
    &&& s.len() >= 1
    &&& forall|i: int| 0 <= i < s.len() ==> is_digit(#[trigger] s[i])
    &&& (s.len() > 1 ==> s[0] != 48)
}

pub proof fn lemma_dec_canonical(n: nat)
    ensures
        is_canonical_digits(dec(n)),
        digits_value(dec(n)) == n,
        n >= 10 <==> dec(n).len() >= 2,
    decreases n,
{
    let s = dec(n);
    if n < 10 {
        assert(s =~= seq![(n + 48) as u8]);
        assert(s.len() == 1);
        assert(s.drop_last() =~= Seq::<u8>::empty());
        assert(digits_value(Seq::<u8>::empty()) == 0);
        assert(s.last() == (n + 48) as u8);
        assert(is_digit(s[0]));
        assert(digits_value(s) == n);
    } else {
        lemma_dec_canonical(n / 10);
        let t = dec(n / 10);
        assert(s.drop_last() =~= t);
        assert(s[0] == t[0]);
        assert(n / 10 >= 1);
        if n / 10 < 10 {
            assert(t[0] == (n / 10 + 48) as u8);
        }
        assert forall|i: int| 0 <= i < s.len() implies is_digit(#[trigger] s[i]) by {
            if i < t.len() {
                assert(s[i] == t[i]);
            }
        }
        assert(n == (n / 10) * 10 + n % 10);
        assert(s.len() > 1);
        assert(digits_value(s) == digits_value(t) * 10 + (s.last() - 48) as nat);
        assert(digits_value(s) == n);
    }
}

proof fn lemma_value_positive(s: Seq<u8>)
    requires
        is_canonical_digits(s),
        s[0] != 48,
    ensures
        digits_value(s) >= 1,
        s.len() >= 2 ==> digits_value(s) >= 10,
    decreases s.len(),
{
    if s.len() >= 2 {
        let t = s.drop_last();
        assert(t[0] == s[0]);
        assert forall|i: int| 0 <= i < t.len() implies is_digit(#[trigger] t[i]) by {
            assert(t[i] == s[i]);
        }
        lemma_value_positive(t);
    }
}

/// Canonical digit runs are exactly the texts that `dec` writes.
pub proof fn lemma_canonical_is_dec(s: Seq<u8>)
    requires
        is_canonical_digits(s),
    ensures
        dec(digits_value(s)) == s,
    decreases s.len(),
{
    if s.len() == 1 {
        assert(s.drop_last() =~= Seq::<u8>::empty());
        assert(digits_value(Seq::<u8>::empty()) == 0);
        assert(is_digit(s[0]));
        let v = digits_value(s);
        assert(v == (s[0] - 48) as nat);
        assert(v < 10);
        assert(dec(v) =~= seq![(v + 48) as u8]);
        assert(dec(v) =~= s);
    } else {
        let t = s.drop_last();
        assert(t[0] == s[0]);
        assert forall|i: int| 0 <= i < t.len() implies is_digit(#[trigger] t[i]) by {
            assert(t[i] == s[i]);
        }
        lemma_value_positive(s);
        lemma_canonical_is_dec(t);
        let v = digits_value(s);
        let d = (s.last() - 48) as nat;
        assert(is_digit(s[s.len() - 1]));
        assert(v == digits_value(t) * 10 + d);
        assert(v / 10 == digits_value(t) && v % 10 == d) by (nonlinear_arith)
            requires
                v == digits_value(t) * 10 + d,
                d < 10,
        ;
        assert(dec(v) =~= t.push(s.last()));
        assert(t.push(s.last()) =~= s);
    }
}

/// Appends the decimal text of `n` to `out`.
pub fn write_dec(n: u64, out: &mut Vec<u8>)
    ensures
        final(out)@ == old(out)@ + dec(n as nat),
    decreases n,
{
    if n < 10 {
        out.push((n as u8) + 48);
        assert(old(out)@ + dec(n as nat) =~= final(out)@);
    } else {
        write_dec(n / 10, out);
        out.push(((n % 10) as u8) + 48);
        assert(old(out)@ + dec(n as nat) =~= final(out)@);
    }
}

/// Reads the longest run of digits of `b` that starts at `start`, as a `u64`.
/// Returns the value and the index just past the run; `None` when the run is
/// empty, is not canonical, or does not fit in a `u64`.
pub fn read_dec(b: &[u8], start: usize) -> (r: Option<(u64, usize)>)
    requires
        start <= b@.len(),
    ensures
        match r {
            Some((v, end)) => {
                &&& start < end <= b@.len()
                &&& b@.subrange(start as int, end as int) == dec(v as nat)
                &&& (end == b@.len() || !is_digit(b@[end as int]))
            },
            None => forall|n: u64, end: int|
                #![trigger dec(n as nat), b@.subrange(start as int, end)]
                start < end <= b@.len() && b@.subrange(start as int, end) == dec(n as nat) ==> (
                end < b@.len() && is_digit(b@[end])),
        },
{
    let mut acc: u64 = 0;
    let mut i: usize = start;
    let mut overflow = false;
    while i < b.len() && 48 <= b[i] && b[i] <= 57
        invariant
            start <= i <= b@.len(),
            forall|j: int| start <= j < i ==> is_digit(#[trigger] b@[j]),
            !overflow ==> acc as nat == digits_value(b@.subrange(start as int, i as int)),
            overflow ==> digits_value(b@.subrange(start as int, i as int)) > u64::MAX,
        decreases b@.len() - i,
    {
        let d = (b[i] - 48) as u64;
        let ghost prev = b@.subrange(start as int, i as int);
        assert(b@.subrange(start as int, i + 1).drop_last() =~= prev);
        if !overflow {
            if acc > (u64::MAX - d) / 10 {
                overflow = true;
                assert(acc * 10 + d > u64::MAX) by (nonlinear_arith)
                    requires
                        acc > (u64::MAX - d) / 10,
                        d <= 9,
                ;
            } else {
                assert(acc * 10 + d <= u64::MAX) by (nonlinear_arith)
                    requires
                        acc <= (u64::MAX - d) / 10,
                        d <= 9,
                ;
                acc = acc * 10 + d;
            }
        } else {
            assert(digits_value(prev) * 10 + d > u64::MAX) by (nonlinear_arith)
                requires
                    digits_value(prev) > u64::MAX,
            ;
        }
        i = i + 1;
    }
    let ghost run = b@.subrange(start as int, i as int);
    if i == start || overflow || (i - start > 1 && b[start] == 48) {
        proof {
            assert forall|n: u64, end: int|
                #![trigger dec(n as nat), b@.subrange(start as int, end)]
                start < end <= b@.len() && b@.subrange(start as int, end) == dec(
                    n as nat,
                ) implies (end < b@.len() && is_digit(b@[end])) by {
                lemma_dec_canonical(n as nat);
                let s = b@.subrange(start as int, end);
                if end <= i {
                    if end < i {
                        assert(is_digit(b@[end]));
                    } else {
                        assert(s =~= run);
                        lemma_canonical_is_dec(run);
                    }
                } else {
                    assert(s[i - start] == b@[i as int]);
                    assert(is_digit(s[i - start]));
                    assert(false);
                }
            }
        }
        None
    } else {
        proof {
            assert forall|j: int| 0 <= j < run.len() implies is_digit(#[trigger] run[j]) by {
                assert(run[j] == b@[start + j]);
            }
            lemma_canonical_is_dec(run);
        }
        Some((acc, i))
    }
}

} // verus!
