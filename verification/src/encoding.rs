//! Fixed-width byte encodings of natural numbers.
//!
//! A field element travels as 32 bytes. The field arithmetic and the host's
//! curve primitives read them least significant byte first; the transcript
//! hashes them most significant byte first. This module states both readings
//! as functions on byte sequences, proves that they are inverse to the
//! matching writings, and holds the few byte-level routines the rest of the
//! crate is built from.

use vstd::prelude::*;

verus! {

/// 256 to the power `n`.
pub open spec fn pow256(n: nat) -> nat
    decreases n,
{
    if n == 0 {
        1
    } else {
        256 * pow256((n - 1) as nat)
    }
}

/// The number that `s` spells with its least significant byte first.
pub open spec fn le_value(s: Seq<u8>) -> nat
    decreases s.len(),
{
    if s.len() == 0 {
        0
    } else {
        s[0] as nat + 256 * le_value(s.drop_first())
    }
}

/// The number that `s` spells with its most significant byte first.
pub open spec fn be_value(s: Seq<u8>) -> nat
    decreases s.len(),
{
    if s.len() == 0 {
        0
    } else {
        256 * be_value(s.drop_last()) + s.last() as nat
    }
}

/// The `n` low bytes of `v`, least significant first.
pub open spec fn le_bytes(v: nat, n: nat) -> Seq<u8>
    decreases n,
{
    if n == 0 {
        Seq::empty()
    } else {
        seq![(v % 256) as u8] + le_bytes(v / 256, (n - 1) as nat)
    }
}

/// The `n` low bytes of `v`, most significant first.
pub open spec fn be_bytes(v: nat, n: nat) -> Seq<u8> {
    le_bytes(v, n).reverse()
}

/// `le_bytes` yields exactly `n` bytes.
pub proof fn lemma_le_bytes_len(v: nat, n: nat)
    ensures
        le_bytes(v, n).len() == n,
    decreases n,
{
    if n > 0 {
        lemma_le_bytes_len(v / 256, (n - 1) as nat);
    }
}

/// `be_bytes` yields exactly `n` bytes.
pub proof fn lemma_be_bytes_len(v: nat, n: nat)
    ensures
        be_bytes(v, n).len() == n,
{
    lemma_le_bytes_len(v, n);
}

/// Reading a sequence most significant byte first is reading its reversal
/// least significant byte first.
pub proof fn lemma_be_value_is_le_of_reverse(s: Seq<u8>)
    ensures
        be_value(s) == le_value(s.reverse()),
    decreases s.len(),
{
    if s.len() > 0 {
        lemma_be_value_is_le_of_reverse(s.drop_last());
        assert(s.reverse().drop_first() =~= s.drop_last().reverse());
        assert(s.reverse()[0] == s.last());
    }
}

/// Reversing twice gives the sequence back.
pub proof fn lemma_reverse_twice(s: Seq<u8>)
    ensures
        s.reverse().reverse() == s,
{
    assert(s.reverse().reverse() =~= s);
}

/// Writing a number that fits in `n` bytes and reading it back gives the
/// number.
pub proof fn lemma_le_value_of_le_bytes(v: nat, n: nat)
    requires
        v < pow256(n),
    ensures
        le_value(le_bytes(v, n)) == v,
    decreases n,
{
    if n > 0 {
        let rest = le_bytes(v / 256, (n - 1) as nat);
        let s = le_bytes(v, n);
        lemma_le_value_of_le_bytes(v / 256, (n - 1) as nat);
        assert(s.drop_first() =~= rest);
        assert(s[0] == (v % 256) as u8);
    }
}

/// Reading a sequence and writing the number back in the same width gives the
/// sequence.
pub proof fn lemma_le_bytes_of_le_value(s: Seq<u8>)
    ensures
        le_bytes(le_value(s), s.len()) == s,
    decreases s.len(),
{
    if s.len() > 0 {
        let v = le_value(s);
        lemma_le_bytes_of_le_value(s.drop_first());
        assert(v % 256 == s[0] as nat);
        assert(v / 256 == le_value(s.drop_first()));
        assert(le_bytes(v, s.len()) =~= s);
    } else {
        assert(le_bytes(le_value(s), s.len()) =~= s);
    }
}

/// Two sequences of one length that spell the same number are the same
/// sequence.
pub proof fn lemma_le_value_injective(a: Seq<u8>, b: Seq<u8>)
    requires
        a.len() == b.len(),
        le_value(a) == le_value(b),
    ensures
        a == b,
{
    lemma_le_bytes_of_le_value(a);
    lemma_le_bytes_of_le_value(b);
}

/// The big-endian writing read back big-endian gives the number.
pub proof fn lemma_be_value_of_be_bytes(v: nat, n: nat)
    requires
        v < pow256(n),
    ensures
        be_value(be_bytes(v, n)) == v,
{
    lemma_be_value_is_le_of_reverse(be_bytes(v, n));
    lemma_reverse_twice(le_bytes(v, n));
    lemma_le_value_of_le_bytes(v, n);
}

/// The big-endian reading written back big-endian gives the sequence.
pub proof fn lemma_be_bytes_of_be_value(s: Seq<u8>)
    ensures
        be_bytes(be_value(s), s.len()) == s,
{
    lemma_be_value_is_le_of_reverse(s);
    lemma_le_bytes_of_le_value(s.reverse());
    lemma_reverse_twice(s);
}

/// The value of `256^32`, the bound on what 32 bytes can spell.
pub proof fn lemma_pow256_32()
    ensures
        pow256(32) == 0x1_0000000000000000_0000000000000000_0000000000000000_0000000000000000nat,
{
    reveal_with_fuel(pow256, 33);
}

/// The bytes of `a` in the opposite order.
pub fn reverse32(a: &[u8; 32]) -> (r: [u8; 32])
    ensures
        r@ == a@.reverse(),
{
    let mut r: [u8; 32] = [0u8; 32];
    let mut i: usize = 0;
    while i < 32
        invariant
            i <= 32,
            forall|j: int| 0 <= j < i ==> r@[j] == a@[31 - j],
        decreases 32 - i,
    {
        r[i] = a[31 - i];
        i = i + 1;
    }
    assert(r@ =~= a@.reverse());
    r
}

/// Appends the 32 bytes of `a` to `buf`.
pub fn append32(buf: &mut Vec<u8>, a: &[u8; 32])
    ensures
        final(buf)@ == old(buf)@ + a@,
{
    let mut i: usize = 0;
    while i < 32
        invariant
            i <= 32,
            buf@ == old(buf)@ + a@.subrange(0, i as int),
        decreases 32 - i,
    {
        buf.push(a[i]);
        i = i + 1;
        assert(buf@ =~= old(buf)@ + a@.subrange(0, i as int));
    }
    assert(a@.subrange(0, 32) =~= a@);
}

/// The 32 bytes of `data` that start at `start`.
pub fn chunk32(data: &Vec<u8>, start: usize) -> (r: [u8; 32])
    requires
        start + 32 <= data@.len(),
    ensures
        r@ == data@.subrange(start as int, start + 32),
{
    let mut r: [u8; 32] = [0u8; 32];
    let mut i: usize = 0;
    while i < 32
        invariant
            i <= 32,
            start + 32 <= data.len(),
            forall|j: int| 0 <= j < i ==> r@[j] == data@[start + j],
        decreases 32 - i,
    {
        r[i] = data[start + i];
        i = i + 1;
    }
    assert(r@ =~= data@.subrange(start as int, start + 32));
    r
}

} // verus!
