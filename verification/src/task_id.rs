//! Task identifiers: a printable string derived from the block number, the
//! transaction's position in the block, and the number of events emitted so
//! far. Distinct derivation inputs always give distinct identifiers.

use vstd::prelude::*;

verus! {

/// The ASCII code of the separator between the identifier's components.
pub const SEPARATOR: u8 = 45;

/// The decimal digits of `n`, most significant first, as ASCII bytes.
pub open spec fn dec(n: nat) -> Seq<u8>
    decreases n,
{
    if n < 10 {
        seq![(48 + n) as u8]
    } else {
        dec(n / 10).push((48 + n % 10) as u8)
    }
}

/// The number a digit string denotes.
pub open spec fn dec_val(s: Seq<u8>) -> int
    decreases s.len(),
{
    if s.len() == 0 {
        0
    } else {
        dec_val(s.drop_last()) * 10 + (s.last() - 48)
    }
}

/// The identifier derived from a block number, a transaction index, and an
/// event count.
pub open spec fn task_id_seq(block: nat, tx: nat, evt: nat) -> Seq<u8> {
    dec(block) + seq![SEPARATOR] + dec(tx) + seq![SEPARATOR] + dec(evt)
}

/// Decimal strings are non-empty and hold digits only.
pub proof fn lemma_dec_shape(n: nat)
    ensures
        dec(n).len() >= 1,
        forall|i: int| 0 <= i < dec(n).len() ==> 48 <= #[trigger] dec(n)[i] <= 57,
    decreases n,
{
    if n < 10 {
    } else {
        lemma_dec_shape(n / 10);
        assert(forall|i: int|
            0 <= i < dec(n / 10).len() ==> #[trigger] dec(n)[i] == dec(n / 10)[i]);
        assert(dec(n)[dec(n).len() - 1] == (48 + n % 10) as u8);
    }
}

/// Reading the digits of `n` back gives `n`.
pub proof fn lemma_dec_val(n: nat)
    ensures
        dec_val(dec(n)) == n,
    decreases n,
{
    let s = dec(n);
    if n < 10 {
        assert(s.drop_last() =~= Seq::<u8>::empty());
        assert((48 + n) as u8 == 48 + n);
        assert(dec_val(s) == dec_val(s.drop_last()) * 10 + (s.last() - 48));
        assert(dec_val(s.drop_last()) == 0);
    } else {
        lemma_dec_val(n / 10);
        assert(s.drop_last() =~= dec(n / 10));
        assert(s.last() == (48 + n % 10) as u8);
        assert((48 + n % 10) as u8 == 48 + n % 10);
        assert(dec_val(s) == dec_val(s.drop_last()) * 10 + (s.last() - 48));
        vstd::arithmetic::div_mod::lemma_fundamental_div_mod(n as int, 10);
    }
}

/// Decimal representation is injective.
pub proof fn lemma_dec_injective(a: nat, b: nat)
    requires
        dec(a) == dec(b),
    ensures
        a == b,
{
    lemma_dec_val(a);
    lemma_dec_val(b);
}

/// A string of the shape `p ++ SEPARATOR ++ s` with a separator-free prefix
/// splits in only one way.
pub proof fn lemma_separator_split(p1: Seq<u8>, s1: Seq<u8>, p2: Seq<u8>, s2: Seq<u8>)
    requires
        p1 + seq![SEPARATOR] + s1 == p2 + seq![SEPARATOR] + s2,
        forall|i: int| 0 <= i < p1.len() ==> p1[i] != SEPARATOR,
        forall|i: int| 0 <= i < p2.len() ==> p2[i] != SEPARATOR,
    ensures
        p1 == p2,
        s1 == s2,
{
    let w1 = p1 + seq![SEPARATOR] + s1;
    let w2 = p2 + seq![SEPARATOR] + s2;
    assert(w1[p1.len() as int] == SEPARATOR);
    assert(w2[p2.len() as int] == SEPARATOR);
    if p1.len() < p2.len() {
        assert(w2[p1.len() as int] == p2[p1.len() as int]);
        assert(false);
    }
    if p2.len() < p1.len() {
        assert(w1[p2.len() as int] == p1[p2.len() as int]);
        assert(false);
    }
    assert(p1.len() == p2.len());
    assert(p1 =~= p2) by {
        assert(forall|i: int| 0 <= i < p1.len() ==> w1[i] == p1[i] && w2[i] == p2[i]);
    }
    assert(w1.len() == p1.len() + 1 + s1.len());
    assert(w2.len() == p2.len() + 1 + s2.len());
    assert(s1.len() == s2.len());
    assert forall|i: int| 0 <= i < s1.len() implies s1[i] == s2[i] by {
        assert(w1[p1.len() + 1 + i] == s1[i]);
        assert(w2[p2.len() + 1 + i] == s2[i]);
    }
    assert(s1 =~= s2);
}

/// Distinct derivation inputs give distinct task identifiers.
pub proof fn lemma_task_id_injective(b1: nat, t1: nat, e1: nat, b2: nat, t2: nat, e2: nat)
    requires
        task_id_seq(b1, t1, e1) == task_id_seq(b2, t2, e2),
    ensures
        b1 == b2,
        t1 == t2,
        e1 == e2,
{
    lemma_dec_shape(b1);
    lemma_dec_shape(b2);
    lemma_dec_shape(t1);
    lemma_dec_shape(t2);
    let r1 = dec(t1) + seq![SEPARATOR] + dec(e1);
    let r2 = dec(t2) + seq![SEPARATOR] + dec(e2);
    assert(dec(b1) + seq![SEPARATOR] + r1 =~= task_id_seq(b1, t1, e1));
    assert(dec(b2) + seq![SEPARATOR] + r2 =~= task_id_seq(b2, t2, e2));
    lemma_separator_split(dec(b1), r1, dec(b2), r2);
    lemma_separator_split(dec(t1), dec(e1), dec(t2), dec(e2));
    lemma_dec_injective(b1, b2);
    lemma_dec_injective(t1, t2);
    lemma_dec_injective(e1, e2);
}

/// Task identifiers are never empty.
pub proof fn lemma_task_id_nonempty(block: nat, tx: nat, evt: nat)
    ensures
        task_id_seq(block, tx, evt).len() >= 1,
{
    lemma_dec_shape(block);
}

/// Appends the decimal digits of `n`.
fn push_decimal(out: &mut Vec<u8>, n: u64)
    ensures
        final(out)@ == old(out)@ + dec(n as nat),
{
    let ghost base = old(out)@;
    let mut tmp: Vec<u8> = Vec::new();
    let mut m: u64 = n;
    tmp.push(48 + (m % 10) as u8);
    m = m / 10;
    proof {
        if m == 0 {
            assert(dec(n as nat) =~= tmp@.reverse());
        } else {
            assert(dec(n as nat) =~= dec(m as nat) + tmp@.reverse());
        }
    }
    while m > 0
        invariant
            tmp@.len() >= 1,
            dec(n as nat) == if m == 0 { tmp@.reverse() } else { dec(m as nat) + tmp@.reverse() },
        decreases m,
    {
        let d: u8 = 48 + (m % 10) as u8;
        let ghost pre = tmp@;
        tmp.push(d);
        let ghost m0 = m;
        m = m / 10;
        proof {
            assert(tmp@.reverse() =~= seq![d] + pre.reverse());
            if m == 0 {
                assert(dec(m0 as nat) =~= seq![d]);
                assert(dec(n as nat) =~= tmp@.reverse());
            } else {
                assert(dec(m0 as nat) =~= dec(m as nat).push(d));
                assert(dec(m as nat) + tmp@.reverse() =~= (dec(m as nat).push(d)) + pre.reverse());
                assert(dec(n as nat) =~= dec(m as nat) + tmp@.reverse());
            }
        }
    }
    let k = tmp.len();
    let mut i: usize = k;
    while i > 0
        invariant
            k == tmp@.len(),
            i <= k,
            out@ == base + tmp@.reverse().take(k - i),
        decreases i,
    {
        i = i - 1;
        out.push(tmp[i]);
        proof {
            assert(tmp@.reverse()[k - i - 1] == tmp@[i as int]);
            assert(tmp@.reverse().take(k - i) =~= tmp@.reverse().take(k - i - 1).push(tmp@[i as int]));
            assert(out@ =~= base + tmp@.reverse().take(k - i));
        }
    }
    proof {
        assert(tmp@.reverse().take(k as int) =~= tmp@.reverse());
        assert(out@ =~= base + dec(n as nat));
    }
}

/// Builds the identifier for the given block number, transaction index, and
/// event count.
pub fn task_id_bytes(block: u64, tx: u64, evt: u64) -> (r: Vec<u8>)
    ensures
        r@ == task_id_seq(block as nat, tx as nat, evt as nat),
{
    let mut out: Vec<u8> = Vec::new();
    push_decimal(&mut out, block);
    out.push(SEPARATOR);
    push_decimal(&mut out, tx);
    out.push(SEPARATOR);
    push_decimal(&mut out, evt);
    proof {
        assert(out@ =~= task_id_seq(block as nat, tx as nat, evt as nat));
    }
    out
}

} // verus!
