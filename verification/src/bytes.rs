//! Little- and big-endian byte renderings of machine integers.
use vstd::prelude::*;

verus! {

/// The low `n` bytes of `v`, least significant first.
pub open spec fn le_bytes(v: u64, n: nat) -> Seq<u8>
    decreases n,
{
    if n == 0 {
        Seq::empty()
    } else {
        seq![(v & 0xFF) as u8] + le_bytes(v >> 8, (n - 1) as nat)
    }
}

/// The low `n` bytes of `v`, most significant first.
pub open spec fn be_bytes(v: u64, n: nat) -> Seq<u8> {
    Seq::new(n, |i: int| le_bytes(v, n)[n - 1 - i])
}

pub proof fn lemma_le_bytes_len(v: u64, n: nat)
    ensures
        le_bytes(v, n).len() == n,
    decreases n,
{
    if n > 0 {
        lemma_le_bytes_len(v >> 8, (n - 1) as nat);
    }
}

/// Appends the low `n` bytes of `v` to `out`, least significant first.
pub fn push_le(out: &mut Vec<u8>, v: u64, n: usize)
    ensures
        final(out)@ == old(out)@ + le_bytes(v, n as nat),
{
    let mut cur: u64 = v;
    let mut i: usize = 0;
    while i < n
        invariant
            i <= n,
            out@ + le_bytes(cur, (n - i) as nat) == old(out)@ + le_bytes(v, n as nat),
        decreases n - i,
    {
        out.push((cur & 0xFF) as u8);
        cur = cur >> 8;
        i = i + 1;
        assert(out@ + le_bytes(cur, (n - i) as nat) == old(out)@ + le_bytes(v, n as nat));
    }
    assert(le_bytes(cur, 0) == Seq::<u8>::empty());
    assert(out@ =~= out@ + le_bytes(cur, 0));
}

/// Appends the low `n` bytes of `v` to `out`, most significant first.
pub fn push_be(out: &mut Vec<u8>, v: u64, n: usize)
    ensures
        final(out)@ == old(out)@ + be_bytes(v, n as nat),
{
    let mut tmp: Vec<u8> = Vec::new();
    push_le(&mut tmp, v, n);
    proof {
        lemma_le_bytes_len(v, n as nat);
    }
    let mut i: usize = 0;
    while i < n
        invariant
            i <= n,
            tmp@ == le_bytes(v, n as nat),
            tmp@.len() == n,
            out@ == old(out)@ + be_bytes(v, n as nat).take(i as int),
        decreases n - i,
    {
        out.push(tmp[n - 1 - i]);
        i = i + 1;
        assert(out@ =~= old(out)@ + be_bytes(v, n as nat).take(i as int));
    }
    assert(be_bytes(v, n as nat).take(n as int) =~= be_bytes(v, n as nat));
}

} // verus!
