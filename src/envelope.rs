use vstd::prelude::*;

use crate::cipher::{base64_decode, base64_decoded, base64_encode, base64_standard, EncryptedData};
use crate::error::JiraError;

verus! {

/// The decimal digits of a byte value, without leading zeros.
pub open spec fn dec(v: u8) -> Seq<u8> {
    if v < 10 {
        seq![(48 + v) as u8]
    } else if v < 100 {
        seq![(48 + v / 10) as u8, (48 + v % 10) as u8]
    } else {
        seq![(48 + v / 100) as u8, (48 + (v / 10) % 10) as u8, (48 + v % 10) as u8]
    }
}

/// Byte values in decimal, separated by commas.
pub open spec fn join(s: Seq<u8>) -> Seq<u8>
    decreases s.len(),
{
    if s.len() == 0 {
        Seq::empty()
    } else if s.len() == 1 {
        dec(s[0])
    } else {
        join(s.drop_last()) + seq![44u8] + dec(s.last())
    }
}

/// A JSON array of byte values.
pub open spec fn array_json(s: Seq<u8>) -> Seq<u8> {
    seq![91u8] + join(s) + seq![93u8]
}

/// `{"nonce":`
pub open spec fn nonce_field() -> Seq<u8> {
    seq![123u8, 34, 110, 111, 110, 99, 101, 34, 58]
}

/// `,"ciphertext":`
pub open spec fn ciphertext_field() -> Seq<u8> {
    seq![44u8, 34, 99, 105, 112, 104, 101, 114, 116, 101, 120, 116, 34, 58]
}

/// The compact JSON object that holds an envelope.
pub open spec fn envelope_json(nonce: Seq<u8>, ciphertext: Seq<u8>) -> Seq<u8> {
    nonce_field() + array_json(nonce) + ciphertext_field() + array_json(ciphertext) + seq![125u8]
}

fn push_dec(out: &mut Vec<u8>, v: u8)
    ensures
        final(out)@ == old(out)@ + dec(v),
{
    if v < 10 {
        out.push(48 + v);
    } else if v < 100 {
        out.push(48 + v / 10);
        out.push(48 + v % 10);
    } else {
        out.push(48 + v / 100);
        out.push(48 + (v / 10) % 10);
        out.push(48 + v % 10);
    }
    assert(final(out)@ =~= old(out)@ + dec(v));
}

fn push_array(out: &mut Vec<u8>, s: &[u8])
    ensures
        final(out)@ == old(out)@ + array_json(s@),
{
    let ghost start = out@;
    out.push(91);
    let n = s.len();
    let mut i: usize = 0;
    assert(s@.subrange(0, 0) =~= Seq::<u8>::empty());
    while i < n
        invariant
            n == s@.len(),
            i <= n,
            out@ == start + seq![91u8] + join(s@.subrange(0, i as int)),
        decreases n - i,
    {
        if i > 0 {
            out.push(44);
        }
        push_dec(out, s[i]);
        proof {
            let sub = s@.subrange(0, i + 1);
            assert(sub.drop_last() =~= s@.subrange(0, i as int));
            assert(sub.last() == s@[i as int]);
            if i == 0 {
                assert(join(sub) == dec(s@[0]));
                assert(out@ =~= start + seq![91u8] + join(sub));
            } else {
                assert(join(sub) == join(s@.subrange(0, i as int)) + seq![44u8] + dec(s@[i as int]));
                assert(out@ =~= start + seq![91u8] + join(sub));
            }
        }
        i += 1;
    }
    out.push(93);
    assert(s@.subrange(0, n as int) =~= s@);
    assert(out@ =~= start + array_json(s@));
}

fn push_all(out: &mut Vec<u8>, lit: &[u8])
    ensures
        final(out)@ == old(out)@ + lit@,
{
    let ghost start = out@;
    let mut i: usize = 0;
    while i < lit.len()
        invariant
            i <= lit@.len(),
            out@ == start + lit@.subrange(0, i as int),
        decreases lit@.len() - i,
    {
        out.push(lit[i]);
        assert(lit@.subrange(0, i + 1) =~= lit@.subrange(0, i as int).push(lit@[i as int]));
        i += 1;
    }
    assert(lit@.subrange(0, lit@.len() as int) =~= lit@);
}

/// The JSON text under which an envelope is persisted.
pub fn encode_envelope(e: &EncryptedData) -> (r: Vec<u8>)
    ensures
        r@ == envelope_json(e.nonce@, e.ciphertext@),
{
    let mut out: Vec<u8> = Vec::new();
    let head: [u8; 9] = [123, 34, 110, 111, 110, 99, 101, 34, 58];
    assert(head@ =~= nonce_field());
    push_all(&mut out, head.as_slice());
    push_array(&mut out, e.nonce.as_slice());
    let mid: [u8; 14] = [44, 34, 99, 105, 112, 104, 101, 114, 116, 101, 120, 116, 34, 58];
    assert(mid@ =~= ciphertext_field());
    push_all(&mut out, mid.as_slice());
    push_array(&mut out, e.ciphertext.as_slice());
    out.push(125);
    assert(out@ =~= envelope_json(e.nonce@, e.ciphertext@));
    out
}

pub open spec fn is_digit(c: u8) -> bool {
    48 <= c <= 57
}

/// `w` stands in `b` from `pos` on.
pub open spec fn at(b: Seq<u8>, pos: int, w: Seq<u8>) -> bool {
    0 <= pos && pos + w.len() <= b.len() && b.subrange(pos, pos + w.len()) == w
}

/// `w` stands in `b` from `pos` on, and no digit follows it.
pub open spec fn number_at(b: Seq<u8>, pos: int, w: Seq<u8>) -> bool {
    at(b, pos, w) && (pos + w.len() == b.len() || !is_digit(b[pos + w.len()]))
}

proof fn lemma_at_index(b: Seq<u8>, pos: int, w: Seq<u8>)
    requires
        at(b, pos, w),
    ensures
        forall|k: int| 0 <= k < w.len() ==> b[pos + k] == #[trigger] w[k],
{
    assert forall|k: int| 0 <= k < w.len() implies b[pos + k] == #[trigger] w[k] by {
        assert(b.subrange(pos, pos + w.len())[k] == b[pos + k]);
    }
}

fn parse_u8(b: &[u8], pos: usize) -> (r: Option<(u8, usize)>)
    ensures
        r matches Some((v, end)) ==> pos < end <= b@.len() && b@.subrange(pos as int, end as int)
            == dec(v),
        forall|v: u8| #[trigger]
            number_at(b@, pos as int, dec(v)) ==> r == Some((v, (pos + dec(v).len()) as usize)),
{
    let n = b.len();
    if pos >= n || b[pos] < 48 || b[pos] > 57 {
        proof {
            assert forall|v: u8| #[trigger] number_at(b@, pos as int, dec(v)) implies false by {
                lemma_at_index(b@, pos as int, dec(v));
                assert(b@[pos as int] == dec(v)[0]);
            }
        }
        return None;
    }
    let d1 = b[pos] - 48;
    if d1 == 0 {
        assert(b@.subrange(pos as int, pos + 1) =~= dec(0));
        proof {
            assert forall|v: u8| #[trigger] number_at(b@, pos as int, dec(v)) implies v == 0 by {
                lemma_at_index(b@, pos as int, dec(v));
                assert(b@[pos as int] == dec(v)[0]);
            }
        }
        return Some((0, pos + 1));
    }
    if pos + 1 == n || b[pos + 1] < 48 || b[pos + 1] > 57 {
        assert(b@.subrange(pos as int, pos + 1) =~= dec(d1));
        proof {
            assert forall|v: u8| #[trigger] number_at(b@, pos as int, dec(v)) implies v == d1 by {
                lemma_at_index(b@, pos as int, dec(v));
                assert(b@[pos as int] == dec(v)[0]);
                if v >= 10 {
                    assert(b@[pos + 1] == dec(v)[1]);
                }
            }
        }
        return Some((d1, pos + 1));
    }
    let d2 = b[pos + 1] - 48;
    if pos + 2 == n || b[pos + 2] < 48 || b[pos + 2] > 57 {
        let v = 10 * d1 + d2;
        assert(v / 10 == d1 && v % 10 == d2);
        assert(b@.subrange(pos as int, pos + 2) =~= dec(v));
        proof {
            assert forall|u: u8| #[trigger] number_at(b@, pos as int, dec(u)) implies u == v by {
                lemma_at_index(b@, pos as int, dec(u));
                assert(b@[pos as int] == dec(u)[0]);
                if u < 10 {
                    assert(is_digit(b@[pos + 1]));
                } else {
                    assert(b@[pos + 1] == dec(u)[1]);
                    if u >= 100 {
                        assert(b@[pos + 2] == dec(u)[2]);
                    }
                }
            }
        }
        return Some((v, pos + 2));
    }
    let d3 = b[pos + 2] - 48;
    let w: u32 = 100 * (d1 as u32) + 10 * (d2 as u32) + (d3 as u32);
    if w > 255 {
        proof {
            assert forall|u: u8| #[trigger] number_at(b@, pos as int, dec(u)) implies false by {
                lemma_at_index(b@, pos as int, dec(u));
                assert(b@[pos as int] == dec(u)[0]);
                if u < 10 {
                    assert(is_digit(b@[pos + 1]));
                } else {
                    assert(b@[pos + 1] == dec(u)[1]);
                    if u < 100 {
                        assert(is_digit(b@[pos + 2]));
                    } else {
                        assert(b@[pos + 2] == dec(u)[2]);
                    }
                }
            }
        }
        return None;
    }
    let v = w as u8;
    assert(v / 100 == d1 && (v / 10) % 10 == d2 && v % 10 == d3);
    assert(b@.subrange(pos as int, pos + 3) =~= dec(v));
    proof {
        assert forall|u: u8| #[trigger] number_at(b@, pos as int, dec(u)) implies u == v by {
            lemma_at_index(b@, pos as int, dec(u));
            assert(b@[pos as int] == dec(u)[0]);
            if u < 10 {
                assert(is_digit(b@[pos + 1]));
            } else {
                assert(b@[pos + 1] == dec(u)[1]);
                if u < 100 {
                    assert(is_digit(b@[pos + 2]));
                } else {
                    assert(b@[pos + 2] == dec(u)[2]);
                }
            }
        }
    }
    Some((v, pos + 3))
}

/// Where the decimal form of element `i` starts inside `join(t)`.
pub open spec fn off(t: Seq<u8>, i: int) -> int {
    if i == 0 {
        0
    } else {
        join(t.subrange(0, i)).len() + 1int
    }
}

proof fn lemma_dec_digits(v: u8)
    ensures
        1 <= dec(v).len() <= 3,
        forall|k: int| 0 <= k < dec(v).len() ==> is_digit(#[trigger] dec(v)[k]),
{
}

proof fn lemma_join_prefix(t: Seq<u8>, i: int)
    requires
        0 < i <= t.len(),
    ensures
        join(t.subrange(0, i)).len() <= join(t).len(),
        join(t).subrange(0, join(t.subrange(0, i)).len() as int) == join(t.subrange(0, i)),
    decreases t.len(),
{
    if i == t.len() {
        assert(t.subrange(0, i) =~= t);
        assert(join(t).subrange(0, join(t).len() as int) =~= join(t));
    } else {
        let d = t.drop_last();
        assert(d.subrange(0, i) =~= t.subrange(0, i));
        lemma_join_prefix(d, i);
        assert(t.len() >= 2);
        assert(join(t) == join(d) + seq![44u8] + dec(t.last()));
        assert(join(t).subrange(0, join(t.subrange(0, i)).len() as int) =~= join(d).subrange(
            0,
            join(t.subrange(0, i)).len() as int,
        ));
    }
}

proof fn lemma_join_step(t: Seq<u8>, i: int)
    requires
        0 <= i < t.len(),
    ensures
        join(t.subrange(0, i + 1)) == join(t.subrange(0, i)).subrange(0, off(t, i) - (if i
            == 0 {
            0int
        } else {
            1int
        })) + (if i == 0 {
            Seq::<u8>::empty()
        } else {
            seq![44u8]
        }) + dec(t[i]),
        join(t.subrange(0, i + 1)).len() == off(t, i) + dec(t[i]).len(),
{
    let sub = t.subrange(0, i + 1);
    assert(sub.drop_last() =~= t.subrange(0, i));
    assert(sub.last() == t[i]);
    if i == 0 {
        assert(join(sub) == dec(t[0]));
        assert(join(t.subrange(0, 0)).subrange(0, 0) =~= Seq::<u8>::empty());
        assert(join(sub) =~= Seq::<u8>::empty() + Seq::<u8>::empty() + dec(t[0]));
    } else {
        let j = join(t.subrange(0, i));
        assert(j.subrange(0, j.len() as int) =~= j);
    }
}

/// Layout of element `i` inside `array_json(t)`.
proof fn lemma_layout(t: Seq<u8>, i: int)
    requires
        0 <= i < t.len(),
    ensures
        forall|k: int|
            0 <= k < dec(t[i]).len() ==> array_json(t)[1 + off(t, i) + k] == #[trigger] dec(
                t[i],
            )[k],
        off(t, i + 1) == off(t, i) + dec(t[i]).len() + 1,
        off(t, i + 1) < array_json(t).len(),
        array_json(t)[off(t, i + 1)] == (if i + 1 == t.len() {
            93u8
        } else {
            44u8
        }),
        i + 1 == t.len() ==> off(t, i + 1) + 1 == array_json(t).len(),
{
    lemma_join_step(t, i);
    lemma_join_prefix(t, i + 1);
    let j1 = join(t.subrange(0, i + 1));
    let jt = join(t);
    let aj = array_json(t);
    assert forall|k: int| 0 <= k < dec(t[i]).len() implies aj[1 + off(t, i) + k] == #[trigger] dec(
        t[i],
    )[k] by {
        assert(jt.subrange(0, j1.len() as int)[off(t, i) + k] == jt[off(t, i) + k]);
        assert(j1[off(t, i) + k] == dec(t[i])[k]);
    }
    if i + 1 == t.len() {
        assert(t.subrange(0, i + 1) =~= t);
    } else {
        lemma_join_step(t, i + 1);
        lemma_join_prefix(t, i + 2);
        let j2 = join(t.subrange(0, i + 2));
        assert(j2[j1.len() as int] == 44u8);
        assert(jt.subrange(0, j2.len() as int)[j1.len() as int] == jt[j1.len() as int]);
    }
}

fn parse_array(b: &[u8], pos: usize) -> (r: Option<(Vec<u8>, usize)>)
    ensures
        r matches Some((s, end)) ==> pos < end <= b@.len() && b@.subrange(pos as int, end as int)
            == array_json(s@),
        forall|t: Seq<u8>| #[trigger]
            at(b@, pos as int, array_json(t)) ==> (r matches Some((s, end)) && s@ == t && end
                == pos + array_json(t).len()),
{
    let n = b.len();
    if pos >= n || b[pos] != 91 {
        proof {
            assert forall|t: Seq<u8>| #[trigger] at(b@, pos as int, array_json(t)) implies false by {
                lemma_at_index(b@, pos as int, array_json(t));
                assert(b@[pos as int] == array_json(t)[0]);
            }
        }
        return None;
    }
    let mut cur: usize = pos + 1;
    if cur < n && b[cur] == 93 {
        proof {
            assert(b@.subrange(pos as int, cur + 1) =~= array_json(Seq::<u8>::empty()));
            assert forall|t: Seq<u8>| #[trigger] at(b@, pos as int, array_json(t)) implies t
                =~= Seq::<u8>::empty() by {
                lemma_at_index(b@, pos as int, array_json(t));
                if t.len() > 0 {
                    lemma_layout(t, 0);
                    lemma_dec_digits(t[0]);
                    assert(b@[pos + 1] == array_json(t)[1 + off(t, 0) + 0]);
                    assert(is_digit(dec(t[0])[0]));
                }
            }
        }
        return Some((Vec::new(), cur + 1));
    }
    let mut out: Vec<u8> = Vec::new();
    proof {
        assert(b@.subrange(pos as int, cur as int) =~= seq![91u8] + join(out@));
        assert forall|t: Seq<u8>| #[trigger] at(b@, pos as int, array_json(t)) implies 0
            < t.len() && out@ =~= t.subrange(0, 0) && cur == pos + 1 + off(t, 0) by {
            lemma_at_index(b@, pos as int, array_json(t));
            if t.len() == 0 {
                assert(b@[pos + 1] == array_json(t)[1]);
            }
        }
    }
    loop
        invariant
            n == b@.len(),
            pos < cur <= n,
            b@.subrange(pos as int, cur as int) == seq![91u8] + join(out@) + (if out@.len() > 0 {
                seq![44u8]
            } else {
                Seq::<u8>::empty()
            }),
            forall|t: Seq<u8>| #[trigger]
                at(b@, pos as int, array_json(t)) ==> out@.len() < t.len() && out@ == t.subrange(
                    0,
                    out@.len() as int,
                ) && cur == pos + 1 + off(t, out@.len() as int),
        decreases n - cur,
    {
        let ghost i = out@.len() as int;
        let ghost before = out@;
        let ghost start = cur;
        proof {
            assert forall|t: Seq<u8>| #[trigger] at(b@, pos as int, array_json(t)) implies number_at(
                b@,
                start as int,
                dec(t[i]),
            ) by {
                lemma_at_index(b@, pos as int, array_json(t));
                lemma_layout(t, i);
                let w = dec(t[i]);
                assert(b@.subrange(start as int, start + w.len()) =~= w);
                assert(b@[start + w.len()] == array_json(t)[off(t, i + 1)]);
            }
        }
        match parse_u8(b, cur) {
            None => {
                proof {
                    assert forall|t: Seq<u8>| #[trigger] at(b@, pos as int, array_json(t)) implies false by {
                        assert(number_at(b@, start as int, dec(t[i])));
                    }
                }
                return None;
            },
            Some((v, e)) => {
                out.push(v);
                cur = e;
                proof {
                    assert(out@ == before.push(v));
                    lemma_join_step(out@, i);
                    assert(out@.subrange(0, i) =~= before);
                    assert(out@.subrange(0, i + 1) =~= out@);
                    assert(b@.subrange(pos as int, cur as int) =~= b@.subrange(pos as int, start as int)
                        + b@.subrange(start as int, cur as int));
                    if i > 0 {
                        let j = join(before);
                        assert(j.subrange(0, j.len() as int) =~= j);
                    }
                    assert(b@.subrange(pos as int, cur as int) =~= seq![91u8] + join(out@));
                    assert forall|t: Seq<u8>| #[trigger] at(b@, pos as int, array_json(t)) implies v
                        == t[i] && out@ == t.subrange(0, i + 1) && cur == pos + 1 + off(t, i) + dec(
                        t[i],
                    ).len() && cur < n && b@[cur as int] == (if i + 1 == t.len() {
                        93u8
                    } else {
                        44u8
                    }) && (i + 1 == t.len() ==> cur + 1 == pos + array_json(t).len()) && off(
                        t,
                        i + 1,
                    ) == off(t, i) + dec(t[i]).len() + 1 by {
                        assert(number_at(b@, start as int, dec(t[i])));
                        lemma_at_index(b@, pos as int, array_json(t));
                        lemma_layout(t, i);
                        assert(out@ =~= t.subrange(0, i + 1));
                        assert(b@[cur as int] == array_json(t)[off(t, i + 1)]);
                    }
                }
                if cur >= n {
                    return None;
                }
                if b[cur] == 93 {
                    proof {
                        assert(b@.subrange(pos as int, cur + 1) =~= array_json(out@));
                        assert forall|t: Seq<u8>| #[trigger] at(b@, pos as int, array_json(t)) implies out@
                            == t && cur + 1 == pos + array_json(t).len() by {
                            assert(out@ == t.subrange(0, i + 1));
                            assert(t.subrange(0, i + 1) =~= t);
                        }
                    }
                    return Some((out, cur + 1));
                }
                if b[cur] != 44 {
                    return None;
                }
                cur += 1;
                proof {
                    assert(b@.subrange(pos as int, cur as int) =~= b@.subrange(pos as int, cur - 1)
                        + seq![44u8]);
                }
            },
        }
    }
}

/// `lit` stands in `b` from `pos` on.
fn bytes_at(b: &[u8], pos: usize, lit: &[u8]) -> (r: bool)
    ensures
        r == at(b@, pos as int, lit@),
{
    let n = b.len();
    let m = lit.len();
    if pos > n || m > n - pos {
        return false;
    }
    let mut k: usize = 0;
    while k < m && b[pos + k] == lit[k]
        invariant
            n == b@.len(),
            m == lit@.len(),
            pos + m <= n,
            k <= m,
            forall|q: int| 0 <= q < k ==> b@[pos + q] == lit@[q],
        decreases m - k,
    {
        k += 1;
    }
    if k == m {
        assert(b@.subrange(pos as int, pos + m) =~= lit@);
        true
    } else {
        assert(b@.subrange(pos as int, pos + m)[k as int] != lit@[k as int]);
        false
    }
}

/// Reads an envelope back from its JSON text. Exactly the texts that
/// `encode_envelope` writes are accepted, each giving back its envelope.
pub fn decode_envelope(b: &[u8]) -> (r: Option<EncryptedData>)
    ensures
        r matches Some(e) ==> b@ == envelope_json(e.nonce@, e.ciphertext@),
        forall|nonce: Seq<u8>, ciphertext: Seq<u8>| #[trigger]
            envelope_json(nonce, ciphertext) == b@ ==> (r matches Some(e) && e.nonce@ == nonce
                && e.ciphertext@ == ciphertext),
{
    let head: [u8; 9] = [123, 34, 110, 111, 110, 99, 101, 34, 58];
    assert(head@ =~= nonce_field());
    let mid: [u8; 14] = [44, 34, 99, 105, 112, 104, 101, 114, 116, 101, 120, 116, 34, 58];
    assert(mid@ =~= ciphertext_field());
    proof {
        assert forall|nonce: Seq<u8>, ciphertext: Seq<u8>| #[trigger]
            envelope_json(nonce, ciphertext) == b@ implies {
            let p1: int = 9int + array_json(nonce).len();
            let p2: int = p1 + 14 + array_json(ciphertext).len();
            &&& at(b@, 0, nonce_field())
            &&& at(b@, 9, array_json(nonce))
            &&& at(b@, p1, ciphertext_field())
            &&& at(b@, p1 + 14, array_json(ciphertext))
            &&& p2 + 1 == b@.len()
            &&& b@[p2] == 125u8
        } by {
            let p1: int = 9int + array_json(nonce).len();
            let p2: int = p1 + 14 + array_json(ciphertext).len();
            assert(b@.subrange(0, 9) =~= nonce_field());
            assert(b@.subrange(9, p1) =~= array_json(nonce));
            assert(b@.subrange(p1, p1 + 14) =~= ciphertext_field());
            assert(b@.subrange(p1 + 14, p2) =~= array_json(ciphertext));
        }
    }
    if !bytes_at(b, 0, head.as_slice()) {
        return None;
    }
    let (nonce, p1) = match parse_array(b, 9) {
        Some(x) => x,
        None => return None,
    };
    let mid_s = mid.as_slice();
    assert(mid_s@ == ciphertext_field());
    assert(mid_s@.len() == 14);
    if !bytes_at(b, p1, mid_s) {
        return None;
    }
    let n = b.len();
    assert(p1 + 14 <= n);
    let (ciphertext, p2) = match parse_array(b, p1 + 14) {
        Some(x) => x,
        None => return None,
    };
    if p2 >= b.len() || b[p2] != 125 || p2 + 1 != b.len() {
        return None;
    }
    proof {
        assert(b@ =~= b@.subrange(0, 9) + b@.subrange(9, p1 as int) + b@.subrange(
            p1 as int,
            p1 + 14,
        ) + b@.subrange(p1 + 14, p2 as int) + seq![125u8]);
    }
    Some(EncryptedData { nonce, ciphertext })
}

/// The text kept in a keyring entry for an envelope: the base64 of its JSON.
/// `None` only for an envelope too large to encode.
pub fn envelope_to_keyring_text(e: &EncryptedData) -> (r: Option<String>)
    ensures
        r is None <==> envelope_json(e.nonce@, e.ciphertext@).len() > usize::MAX / 4,
        r matches Some(t) ==> t@ == base64_standard(envelope_json(e.nonce@, e.ciphertext@))
            && base64_decoded(t@) == Some(envelope_json(e.nonce@, e.ciphertext@)),
{
    let json = encode_envelope(e);
    if json.len() > usize::MAX / 4 {
        return None;
    }
    Some(base64_encode(json.as_slice()))
}

/// Reads back the envelope kept in a keyring entry.
pub fn envelope_from_keyring_text(text: &str) -> (r: Result<EncryptedData, JiraError>)
    ensures
        base64_decoded(text@) is None ==> (r matches Err(JiraError::Base64(_))),
        base64_decoded(text@) matches Some(j) ==> {
            &&& r matches Ok(e) ==> j == envelope_json(e.nonce@, e.ciphertext@)
            &&& forall|nonce: Seq<u8>, ciphertext: Seq<u8>| #[trigger]
                envelope_json(nonce, ciphertext) == j ==> (r matches Ok(e) && e.nonce@ == nonce
                    && e.ciphertext@ == ciphertext)
            &&& r is Err ==> (r matches Err(JiraError::Serialization(_)))
        },
{
    match base64_decode(text) {
        None => Err(JiraError::Base64(String::from_str("texto base64 inválido"))),
        Some(json) => match decode_envelope(json.as_slice()) {
            Some(e) => Ok(e),
            None => Err(JiraError::Serialization(String::from_str("envelope JSON inválido"))),
        },
    }
}

} // verus!
