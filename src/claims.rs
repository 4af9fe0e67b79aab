//! The claims carried by an identity token, and their fixed JSON text.
//!
//! The text has exactly one form: `{"sub":"S","jti":"J","iat":I,"exp":E}`,
//! with `S` and `J` identifiers and `I`, `E` canonical decimal numbers. The
//! parser accepts that form and nothing else, so a missing, extra or
//! reordered field is malformed.

use crate::decimal::{dec, is_digit, lemma_dec_canonical, read_dec, write_dec};
use vstd::prelude::*;

verus! {

/// The mathematical content of a set of claims.
pub struct ClaimsModel {
    pub sub: Seq<u8>,
    pub jti: Seq<u8>,
    pub iat: u64,
    pub exp: u64,
}

/// Claims of a token: subject (user id), token id, issued-at and
/// expires-at, in seconds since the Unix epoch.
#[derive(Clone, Debug)]
pub struct TokenClaims {
    pub sub: Vec<u8>,
    pub jti: Vec<u8>,
    pub iat: u64,
    pub exp: u64,
}

impl View for TokenClaims {
    type V = ClaimsModel;

    open spec fn view(&self) -> ClaimsModel {
        ClaimsModel { sub: self.sub@, jti: self.jti@, iat: self.iat, exp: self.exp }
    }
}

/// Bytes an identifier may hold: ASCII letters, digits, `-` and `_`.
pub open spec fn is_id_byte(b: u8) -> bool {
    (48 <= b && b <= 57) || (65 <= b && b <= 90) || (97 <= b && b <= 122) || b == 45 || b == 95
}

/// A non-empty run of identifier bytes.
pub open spec fn is_id(s: Seq<u8>) -> bool {
    s.len() >= 1 && forall|i: int| 0 <= i < s.len() ==> is_id_byte(#[trigger] s[i])
}

/// Claims that can be written: both identifiers well formed.
pub open spec fn claims_ok(c: ClaimsModel) -> bool {
    is_id(c.sub) && is_id(c.jti)
}

/// `{"sub":"`
pub open spec fn lit_open() -> Seq<u8> {
    seq![123u8, 34, 115, 117, 98, 34, 58, 34]
}

/// `","jti":"`
pub open spec fn lit_jti() -> Seq<u8> {
    seq![34u8, 44, 34, 106, 116, 105, 34, 58, 34]
}

/// `","iat":`
pub open spec fn lit_iat() -> Seq<u8> {
    seq![34u8, 44, 34, 105, 97, 116, 34, 58]
}

/// `,"exp":`
pub open spec fn lit_exp() -> Seq<u8> {
    seq![44u8, 34, 101, 120, 112, 34, 58]
}

/// `}`
pub open spec fn lit_close() -> Seq<u8> {
    seq![125u8]
}

/// The JSON text of a set of claims.
pub open spec fn claims_json(c: ClaimsModel) -> Seq<u8> {
    lit_open() + c.sub + lit_jti() + c.jti + lit_iat() + dec(c.iat as nat) + lit_exp() + dec(
        c.exp as nat,
    ) + lit_close()
}

fn open_bytes() -> (r: Vec<u8>)
    ensures
        r@ == lit_open(),
{
    let r = vec![123u8, 34, 115, 117, 98, 34, 58, 34];
    assert(r@ =~= lit_open());
    r
}

fn jti_bytes() -> (r: Vec<u8>)
    ensures
        r@ == lit_jti(),
{
    let r = vec![34u8, 44, 34, 106, 116, 105, 34, 58, 34];
    assert(r@ =~= lit_jti());
    r
}

fn iat_bytes() -> (r: Vec<u8>)
    ensures
        r@ == lit_iat(),
{
    let r = vec![34u8, 44, 34, 105, 97, 116, 34, 58];
    assert(r@ =~= lit_iat());
    r
}

fn exp_bytes() -> (r: Vec<u8>)
    ensures
        r@ == lit_exp(),
{
    let r = vec![44u8, 34, 101, 120, 112, 34, 58];
    assert(r@ =~= lit_exp());
    r
}

fn close_bytes() -> (r: Vec<u8>)
    ensures
        r@ == lit_close(),
{
    let r = vec![125u8];
    assert(r@ =~= lit_close());
    r
}

/// Appends the bytes of `src` to `out`.
pub fn append_bytes(out: &mut Vec<u8>, src: &[u8])
    ensures
        final(out)@ == old(out)@ + src@,
{
    let mut i: usize = 0;
    while i < src.len()
        invariant
            i <= src@.len(),
            out@ == old(out)@ + src@.subrange(0, i as int),
        decreases src@.len() - i,
    {
        out.push(src[i]);
        i = i + 1;
        assert(out@ =~= old(out)@ + src@.subrange(0, i as int));
    }
    assert(src@.subrange(0, i as int) =~= src@);
}

/// Does `lit` stand in `b` at `pos`?
pub fn has_at(b: &[u8], pos: usize, lit: &[u8]) -> (r: bool)
    requires
        pos <= b@.len(),
    ensures
        r == (pos + lit@.len() <= b@.len() && b@.subrange(pos as int, pos + lit@.len()) == lit@),
{
    let n = b.len();
    if lit.len() > n - pos {
        return false;
    }
    let mut i: usize = 0;
    while i < lit.len()
        invariant
            n == b@.len(),
            pos <= b@.len(),
            pos + lit@.len() <= b@.len(),
            i <= lit@.len(),
            forall|j: int| 0 <= j < i ==> b@[pos + j] == lit@[j],
        decreases lit@.len() - i,
    {
        if b[pos + i] != lit[i] {
            assert(b@.subrange(pos as int, pos + lit@.len())[i as int] != lit@[i as int]);
            return false;
        }
        i = i + 1;
    }
    assert(b@.subrange(pos as int, pos + lit@.len()) =~= lit@);
    true
}

/// The bytes of `b` from `from` up to `to`.
pub fn copy_range(b: &[u8], from: usize, to: usize) -> (r: Vec<u8>)
    requires
        from <= to <= b@.len(),
    ensures
        r@ == b@.subrange(from as int, to as int),
{
    let mut r: Vec<u8> = Vec::new();
    let mut i: usize = from;
    while i < to
        invariant
            from <= i <= to <= b@.len(),
            r@ == b@.subrange(from as int, i as int),
        decreases to - i,
    {
        r.push(b[i]);
        i = i + 1;
        assert(r@ =~= b@.subrange(from as int, i as int));
    }
    r
}

/// Is `b` an identifier byte?
pub fn id_byte(b: u8) -> (r: bool)
    ensures
        r == is_id_byte(b),
{
    (48 <= b && b <= 57) || (65 <= b && b <= 90) || (97 <= b && b <= 122) || b == 45 || b == 95
}

/// Is `s` an identifier?
pub fn check_id(s: &[u8]) -> (r: bool)
    ensures
        r == is_id(s@),
{
    if s.len() == 0 {
        return false;
    }
    let mut i: usize = 0;
    while i < s.len()
        invariant
            i <= s@.len(),
            forall|j: int| 0 <= j < i ==> is_id_byte(#[trigger] s@[j]),
        decreases s@.len() - i,
    {
        if !id_byte(s[i]) {
            return false;
        }
        i = i + 1;
    }
    true
}

/// The end of the longest run of identifier bytes of `b` from `pos`.
fn scan_id(b: &[u8], pos: usize) -> (end: usize)
    requires
        pos <= b@.len(),
    ensures
        pos <= end <= b@.len(),
        forall|j: int| pos <= j < end ==> is_id_byte(#[trigger] b@[j]),
        end == b@.len() || !is_id_byte(b@[end as int]),
{
    let mut i: usize = pos;
    while i < b.len() && id_byte(b[i])
        invariant
            pos <= i <= b@.len(),
            forall|j: int| pos <= j < i ==> is_id_byte(#[trigger] b@[j]),
        decreases b@.len() - i,
    {
        i = i + 1;
    }
    i
}

impl TokenClaims {
    /// The JSON text of these claims.
    pub fn to_json(&self) -> (r: Vec<u8>)
        ensures
            r@ == claims_json(self@),
    {
        let mut out: Vec<u8> = Vec::new();
        append_bytes(&mut out, &open_bytes());
        append_bytes(&mut out, &self.sub);
        append_bytes(&mut out, &jti_bytes());
        append_bytes(&mut out, &self.jti);
        append_bytes(&mut out, &iat_bytes());
        write_dec(self.iat, &mut out);
        append_bytes(&mut out, &exp_bytes());
        write_dec(self.exp, &mut out);
        append_bytes(&mut out, &close_bytes());
        assert(out@ =~= claims_json(self@));
        out
    }

    /// Reads claims from their JSON text. Succeeds exactly on the texts that
    /// `to_json` writes for well-formed claims, and gives those claims back.
    #[verifier::spinoff_prover]
    #[verifier::rlimit(60)]
    pub fn from_json(b: &[u8]) -> (r: Option<TokenClaims>)
        ensures
            match r {
                Some(c) => claims_ok(c@) && claims_json(c@) == b@,
                None => forall|c: ClaimsModel| claims_ok(c) ==> claims_json(c) != b@,
            },
    {
        let n = b.len();
        let ghost bs = b@;
        let ghost has = exists|c: ClaimsModel| claims_ok(c) && claims_json(c) == bs;
        let ghost w = choose|c: ClaimsModel| claims_ok(c) && claims_json(c) == bs;
        proof {
            if has {
                lemma_claims_layout(w);
            }
        }
        let ghost s_end: int = 8 + w.sub.len() as int;
        let ghost j_end: int = s_end + 9 + w.jti.len();
        let ghost i_end: int = j_end + 8 + dec(w.iat as nat).len();
        let ghost x_end: int = i_end + 7 + dec(w.exp as nat).len();
        let lo = open_bytes();
        let lj = jti_bytes();
        let li = iat_bytes();
        let le = exp_bytes();
        let lc = close_bytes();
        if !has_at(b, 0, &lo) {
            return None;
        }
        let p1: usize = lo.len();
        let e1 = scan_id(b, p1);
        proof {
            if has {
                lemma_run_end(bs, p1 as int, e1 as int, s_end);
            }
        }
        if e1 == p1 || !has_at(b, e1, &lj) {
            return None;
        }
        assert(e1 + lj@.len() <= bs.len());
        let p2: usize = e1 + lj.len();
        let e2 = scan_id(b, p2);
        proof {
            if has {
                lemma_run_end(bs, p2 as int, e2 as int, j_end);
            }
        }
        if e2 == p2 || !has_at(b, e2, &li) {
            return None;
        }
        assert(e2 + li@.len() <= bs.len());
        let p3: usize = e2 + li.len();
        let iat = read_dec(b, p3);
        let (iat_v, e3) = match iat {
            Some(x) => x,
            None => {
                proof {
                    if has {
                        assert(bs.subrange(p3 as int, i_end) == dec(w.iat as nat));
                    }
                }
                return None;
            },
        };
        proof {
            if has {
                lemma_dec_run_end(bs, p3 as int, e3 as int, i_end, iat_v, w.iat);
            }
        }
        if !has_at(b, e3, &le) {
            return None;
        }
        assert(e3 + le@.len() <= bs.len());
        let p4: usize = e3 + le.len();
        let exp = read_dec(b, p4);
        let (exp_v, e4) = match exp {
            Some(x) => x,
            None => {
                proof {
                    if has {
                        assert(bs.subrange(p4 as int, x_end) == dec(w.exp as nat));
                    }
                }
                return None;
            },
        };
        proof {
            if has {
                lemma_dec_run_end(bs, p4 as int, e4 as int, x_end, exp_v, w.exp);
            }
        }
        if e4 >= b.len() || b[e4] != 125 || e4 + 1 != b.len() {
            return None;
        }
        let sub = copy_range(b, p1, e1);
        let jti = copy_range(b, p2, e2);
        let c = TokenClaims { sub, jti, iat: iat_v, exp: exp_v };
        proof {
            assert(lo@ == lit_open());
            assert(bs.subrange(0, 8) == lit_open());
            assert(bs.subrange(e1 as int, p2 as int) == lit_jti());
            assert(bs.subrange(e2 as int, p3 as int) == lit_iat());
            assert(bs.subrange(e3 as int, p4 as int) == lit_exp());
            assert(bs.subrange(p1 as int, e1 as int) == c.sub@);
            assert(bs.subrange(p2 as int, e2 as int) == c.jti@);
            assert(claims_json(c@) =~= bs);
        }
        Some(c)
    }
}

/// Where each part of the text of `c` lies.
proof fn lemma_claims_layout(c: ClaimsModel)
    requires
        claims_ok(c),
    ensures
        ({
            let b = claims_json(c);
            let s_end: int = 8 + c.sub.len() as int;
            let j_end: int = s_end + 9 + c.jti.len();
            let i_end: int = j_end + 8 + dec(c.iat as nat).len();
            let x_end: int = i_end + 7 + dec(c.exp as nat).len();
            &&& b.len() == x_end + 1
            &&& b.subrange(0, 8) == lit_open()
            &&& b.subrange(8, s_end) == c.sub
            &&& b.subrange(s_end, s_end + 9) == lit_jti()
            &&& b.subrange(s_end + 9, j_end) == c.jti
            &&& b.subrange(j_end, j_end + 8) == lit_iat()
            &&& b.subrange(j_end + 8, i_end) == dec(c.iat as nat)
            &&& b.subrange(i_end, i_end + 7) == lit_exp()
            &&& b.subrange(i_end + 7, x_end) == dec(c.exp as nat)
            &&& b[x_end] == 125
            &&& forall|j: int| 8 <= j < s_end ==> is_id_byte(#[trigger] b[j])
            &&& !is_id_byte(b[s_end])
            &&& forall|j: int| s_end + 9 <= j < j_end ==> is_id_byte(#[trigger] b[j])
            &&& !is_id_byte(b[j_end])
            &&& !is_digit(b[i_end])
            &&& !is_digit(b[x_end])
        }),
{
    let b = claims_json(c);
    let s_end: int = 8 + c.sub.len() as int;
    let j_end: int = s_end + 9 + c.jti.len();
    let i_end: int = j_end + 8 + dec(c.iat as nat).len();
    let x_end: int = i_end + 7 + dec(c.exp as nat).len();
    assert(b.subrange(0, 8) =~= lit_open());
    assert(b.subrange(8, s_end) =~= c.sub);
    assert(b.subrange(s_end, s_end + 9) =~= lit_jti());
    assert(b.subrange(s_end + 9, j_end) =~= c.jti);
    assert(b.subrange(j_end, j_end + 8) =~= lit_iat());
    assert(b.subrange(j_end + 8, i_end) =~= dec(c.iat as nat));
    assert(b.subrange(i_end, i_end + 7) =~= lit_exp());
    assert(b.subrange(i_end + 7, x_end) =~= dec(c.exp as nat));
    assert(b[x_end] == 125);
    assert forall|j: int| 8 <= j < s_end implies is_id_byte(#[trigger] b[j]) by {
        assert(b[j] == c.sub[j - 8]);
    }
    assert(b[s_end] == lit_jti()[0]);
    assert forall|j: int| s_end + 9 <= j < j_end implies is_id_byte(#[trigger] b[j]) by {
        assert(b[j] == c.jti[j - s_end - 9]);
    }
    assert(b[j_end] == lit_iat()[0]);
    assert(b[i_end] == lit_exp()[0]);
}

/// A maximal run of identifier bytes from `pos` that must stop at `stop`
/// ends there.
proof fn lemma_run_end(b: Seq<u8>, pos: int, end: int, stop: int)
    requires
        0 <= pos <= end <= b.len(),
        pos <= stop < b.len(),
        forall|j: int| pos <= j < end ==> is_id_byte(#[trigger] b[j]),
        end == b.len() || !is_id_byte(b[end]),
        forall|j: int| pos <= j < stop ==> is_id_byte(#[trigger] b[j]),
        !is_id_byte(b[stop]),
    ensures
        end == stop,
{
    if end < stop {
        assert(is_id_byte(b[end]));
    }
    if end > stop {
        assert(is_id_byte(b[stop]));
    }
}

/// A maximal run of digits from `pos` over a number's text that a non-digit
/// follows at `stop` ends there, with that number.
proof fn lemma_dec_run_end(b: Seq<u8>, pos: int, end: int, stop: int, v: u64, n: u64)
    requires
        0 <= pos < end <= b.len(),
        stop < b.len(),
        b.subrange(pos, end) == dec(v as nat),
        end == b.len() || !is_digit(b[end]),
        pos <= stop,
        b.subrange(pos, stop) == dec(n as nat),
        !is_digit(b[stop]),
    ensures
        end == stop,
        v == n,
{
    lemma_dec_canonical(v as nat);
    lemma_dec_canonical(n as nat);
    if end < stop {
        assert(b.subrange(pos, stop)[end - pos] == b[end]);
        assert(is_digit(b[end]));
    }
    if end > stop {
        assert(b.subrange(pos, end)[stop - pos] == b[stop]);
        assert(is_digit(b[stop]));
    }
}

/// Different well-formed claims have different texts.
pub proof fn lemma_claims_json_injective(c1: ClaimsModel, c2: ClaimsModel)
    requires
        claims_ok(c1),
        claims_ok(c2),
        claims_json(c1) == claims_json(c2),
    ensures
        c1 == c2,
{
    lemma_claims_layout(c1);
    lemma_claims_layout(c2);
    let b = claims_json(c1);
    let s1: int = 8 + c1.sub.len() as int;
    let s2: int = 8 + c2.sub.len() as int;
    lemma_run_end(b, 8, s1, s2);
    assert(c1.sub =~= c2.sub);
    let j1: int = s1 + 9 + c1.jti.len();
    let j2: int = s2 + 9 + c2.jti.len();
    lemma_run_end(b, s1 + 9, j1, j2);
    assert(c1.jti =~= c2.jti);
    let i1: int = j1 + 8 + dec(c1.iat as nat).len();
    let i2: int = j2 + 8 + dec(c2.iat as nat).len();
    lemma_dec_canonical(c1.iat as nat);
    lemma_dec_run_end(b, j1 + 8, i1, i2, c1.iat, c2.iat);
    let x1: int = i1 + 7 + dec(c1.exp as nat).len();
    let x2: int = i2 + 7 + dec(c2.exp as nat).len();
    lemma_dec_canonical(c1.exp as nat);
    lemma_dec_run_end(b, i1 + 7, x1, x2, c1.exp, c2.exp);
}

} // verus!
