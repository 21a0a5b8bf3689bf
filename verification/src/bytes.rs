use vstd::prelude::*;

verus! {

/// Appends all bytes of a slice to a growing buffer.
pub fn extend_bytes(out: &mut Vec<u8>, b: &[u8])
    ensures
        final(out)@ == old(out)@ + b@,
{
    let mut i: usize = 0;
    while i < b.len()
        invariant
            i <= b@.len(),
            out@ == old(out)@ + b@.subrange(0, i as int),
        decreases b@.len() - i,
    {
        out.push(b[i]);
        proof {
            assert(out@ =~= old(out)@ + b@.subrange(0, i + 1 as int));
        }
        i += 1;
    }
    proof {
        assert(out@ =~= old(out)@ + b@);
    }
}

/// Copies a fixed-size window out of a buffer.
pub fn read_array<const N: usize>(buf: &Vec<u8>, start: usize) -> (r: [u8; N])
    requires
        start + N <= buf@.len(),
    ensures
        r@ == buf@.subrange(start as int, start + N),
{
    let n = buf.len();
    let mut r = [0u8; N];
    let mut i: usize = 0;
    while i < N
        invariant
            i <= N,
            n == buf@.len(),
            start + N <= n,
            forall|k: int| 0 <= k < i ==> r@[k] == buf@[start + k],
        decreases N - i,
    {
        r[i] = buf[start + i];
        i += 1;
    }
    proof {
        assert(r@ =~= buf@.subrange(start as int, start + N));
    }
    r
}

/// Copies a window of a buffer into a fresh one.
pub fn read_vec(buf: &Vec<u8>, start: usize, len: usize) -> (r: Vec<u8>)
    requires
        start + len <= buf@.len(),
    ensures
        r@ == buf@.subrange(start as int, start + len),
{
    let n = buf.len();
    let mut r: Vec<u8> = Vec::new();
    let mut i: usize = 0;
    while i < len
        invariant
            i <= len,
            n == buf@.len(),
            start + len <= n,
            r@ == buf@.subrange(start as int, start + i),
        decreases len - i,
    {
        r.push(buf[start + i]);
        proof {
            assert(r@ =~= buf@.subrange(start as int, start + i + 1));
        }
        i += 1;
    }
    r
}

/// Whether two fixed-size byte arrays hold the same bytes.
pub fn bytes_eq<const N: usize>(a: &[u8; N], b: &[u8; N]) -> (r: bool)
    ensures
        r == (a@ == b@),
{
    let mut i: usize = 0;
    while i < N
        invariant
            i <= N,
            forall|k: int| 0 <= k < i ==> a@[k] == b@[k],
        decreases N - i,
    {
        if a[i] != b[i] {
            return false;
        }
        i += 1;
    }
    proof {
        assert(a@ =~= b@);
    }
    true
}

} // verus!
