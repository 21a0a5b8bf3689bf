use vstd::prelude::*;
use crate::constants::BLOOM_FILTER_LENGTH;
use crate::crypto::random_below;
use crate::hbfi::HBFI;

verus! {

/// The filter's bit vector, held behind an opaque wrapper: the element
/// order and store parameters of the outside type cannot be declared here.
#[verifier::external_body]
pub struct Bits {
    v: bitvec::vec::BitVec<usize, bitvec::order::Lsb0>,
}

/// The bits a filter's vector holds.
pub uninterp spec fn bits_of(b: Bits) -> Seq<bool>;

/// Relies on bitvec::vec::BitVec::repeat: a vector of `len` copies of `bit`.
#[verifier::external_body]
fn bits_repeat(bit: bool, len: usize) -> (r: Bits)
    ensures
        bits_of(r) == Seq::new(len as nat, |i: int| bit),
{
    Bits { v: bitvec::vec::BitVec::repeat(bit, len) }
}

/// Relies on bitvec::slice::BitSlice::set: writes one bit in place.
#[verifier::external_body]
fn bits_set(b: &mut Bits, index: usize, value: bool)
    requires
        index < bits_of(*old(b)).len(),
    ensures
        bits_of(*final(b)) == bits_of(*old(b)).update(index as int, value),
{
    b.v.set(index, value);
}

/// Relies on bitvec's indexing: reads one bit.
#[verifier::external_body]
fn bits_get(b: &Bits, index: usize) -> (r: bool)
    requires
        index < bits_of(*b).len(),
    ensures
        r == bits_of(*b)[index as int],
{
    b.v[index]
}

/// Relies on bitvec::slice::BitSlice::count_ones: how many bits are set.
#[verifier::external_body]
fn bits_count_ones(b: &Bits) -> (r: usize)
    ensures
        r == spec_count_ones(bits_of(*b), bits_of(*b).len() as int),
{
    b.v.count_ones()
}

/// Relies on bitvec::vec::BitVec::clone: the copy holds the same bits.
#[verifier::external_body]
fn bits_clone(b: &Bits) -> (r: Bits)
    ensures
        bits_of(r) == bits_of(*b),
{
    Bits { v: b.v.clone() }
}

/// How many of the first `n` bits are set.
pub open spec fn spec_count_ones(bits: Seq<bool>, n: int) -> int
    decreases n,
{
    if n <= 0 {
        0
    } else {
        spec_count_ones(bits, n - 1) + if 0 <= n - 1 < bits.len() && bits[n - 1] {
            1int
        } else {
            0int
        }
    }
}

/// Law: a count of set bits never passes the number of bits counted.
pub proof fn lemma_count_ones_bound(bits: Seq<bool>, n: int)
    requires
        n >= 0,
    ensures
        0 <= spec_count_ones(bits, n) <= n,
    decreases n,
{
    if n > 0 {
        lemma_count_ones_bound(bits, n - 1);
    }
}

/// The name's entries in query order: six indices of four entries each.
pub open spec fn spec_entry(h: HBFI, t: int) -> u16
    recommends
        0 <= t < 24,
{
    let bfis = seq![h.res, h.req, h.app, h.m0d, h.fun, h.arg];
    bfis[t / 4][t % 4]
}

/// The bit position one entry of a name addresses.
pub open spec fn spec_slot(h: HBFI, t: int) -> int {
    (spec_entry(h, t) as int) % (BLOOM_FILTER_LENGTH as int)
}

/// Whether a name addresses a bit position with one of its first `m`
/// entries.
pub open spec fn spec_marks_upto(h: HBFI, m: int, i: int) -> bool {
    exists|t: int| 0 <= t < m && spec_slot(h, t) == i
}

/// Whether a name addresses a bit position at all.
pub open spec fn spec_marks(h: HBFI, i: int) -> bool {
    spec_marks_upto(h, 24, i)
}

/// How many of the name's first `m` entries address a set bit.
pub open spec fn spec_hits_upto(h: HBFI, bits: Seq<bool>, m: int) -> int
    decreases m,
{
    if m <= 0 {
        0
    } else {
        spec_hits_upto(h, bits, m - 1) + if 0 <= spec_slot(h, m - 1) < bits.len() && bits[spec_slot(
            h,
            m - 1,
        )] {
            1int
        } else {
            0int
        }
    }
}

/// How many of the name's twenty-four entries address a set bit.
pub open spec fn spec_hits(h: HBFI, bits: Seq<bool>) -> int {
    spec_hits_upto(h, bits, 24)
}

/// Law: a name's hits never pass its number of entries.
pub proof fn lemma_hits_bound(h: HBFI, bits: Seq<bool>, m: int)
    requires
        m >= 0,
    ensures
        0 <= spec_hits_upto(h, bits, m) <= m,
    decreases m,
{
    if m > 0 {
        lemma_hits_bound(h, bits, m - 1);
    }
}

/// That `bits` is `orig` with every position addressed by the name's
/// first `m` entries cleared.
pub open spec fn spec_cleared_upto(h: HBFI, orig: Seq<bool>, bits: Seq<bool>, m: int) -> bool {
    forall|i: int|
        0 <= i < BLOOM_FILTER_LENGTH ==> bits[i] == (orig[i] && !spec_marks_upto(h, m, i))
}

/// A filter's bits with every position the name addresses cleared.
pub open spec fn spec_without_marks(h: HBFI, bits: Seq<bool>) -> Seq<bool> {
    Seq::new(bits.len(), |i: int| bits[i] && !spec_marks(h, i))
}

/// A filter's bits with every position the name addresses set.
pub open spec fn spec_with_marks(h: HBFI, bits: Seq<bool>) -> Seq<bool> {
    Seq::new(bits.len(), |i: int| bits[i] || spec_marks(h, i))
}

/// A link's sparse distributed memory of names: a fixed-width bit vector
/// into which every entry of a name sets one bit.
pub struct BloomFilter {
    sdr: Bits,
}

impl View for BloomFilter {
    type V = Seq<bool>;

    closed spec fn view(&self) -> Seq<bool> {
        bits_of(self.sdr)
    }
}

impl BloomFilter {
    /// A filter's one invariant: its width.
    pub open spec fn wf(&self) -> bool {
        self@.len() == BLOOM_FILTER_LENGTH
    }

    /// An empty filter.
    pub fn new() -> (r: BloomFilter)
        ensures
            r.wf(),
            forall|i: int| 0 <= i < BLOOM_FILTER_LENGTH ==> !r@[i],
    {
        BloomFilter { sdr: bits_repeat(false, BLOOM_FILTER_LENGTH) }
    }

    /// A cheap copy of the filter, bit for bit; each link owns one.
    pub fn duplicate(&self) -> (r: BloomFilter)
        ensures
            r@ == self@,
    {
        BloomFilter { sdr: bits_clone(&self.sdr) }
    }

    /// One entry of the name, read off at query time.
    fn entry(packet: &HBFI, t: usize) -> (r: u16)
        requires
            t < 24,
        ensures
            r == spec_entry(*packet, t as int),
    {
        let k = t % 4;
        let b = match t / 4 {
            0 => &packet.res,
            1 => &packet.req,
            2 => &packet.app,
            3 => &packet.m0d,
            4 => &packet.fun,
            _ => &packet.arg,
        };
        b[k]
    }

    /// Sets every bit position the name addresses.
    pub fn insert(&mut self, packet: &HBFI)
        requires
            old(self).wf(),
        ensures
            final(self).wf(),
            final(self)@ == spec_with_marks(*packet, old(self)@),
    {
        let ghost orig: Seq<bool> = self@;
        let mut t: usize = 0;
        while t < 24
            invariant
                t <= 24,
                self.wf(),
                orig.len() == BLOOM_FILTER_LENGTH,
                forall|i: int|
                    0 <= i < BLOOM_FILTER_LENGTH ==> self@[i] == (orig[i] || spec_marks_upto(
                        *packet,
                        t as int,
                        i,
                    )),
            decreases 24 - t,
        {
            let slot = (Self::entry(packet, t) as usize) % BLOOM_FILTER_LENGTH;
            let ghost pre: Seq<bool> = self@;
            let ghost tn: int = t + 1;
            bits_set(&mut self.sdr, slot, true);
            proof {
                assert(spec_slot(*packet, t as int) == slot as int);
                assert(self@ == pre.update(slot as int, true));
                assert forall|i: int| 0 <= i < BLOOM_FILTER_LENGTH implies self@[i] == (orig[i]
                    || spec_marks_upto(*packet, tn, i)) by {
                    assert(pre[i] == (orig[i] || spec_marks_upto(*packet, t as int, i)));
                    if i == slot as int {
                        assert(0 <= t < tn && spec_slot(*packet, t as int) == i);
                        assert(spec_marks_upto(*packet, tn, i));
                    } else {
                        if spec_marks_upto(*packet, tn, i) {
                            let w = choose|w: int| 0 <= w < tn && spec_slot(*packet, w) == i;
                            assert(w != t);
                            assert(0 <= w < t && spec_slot(*packet, w) == i);
                            assert(spec_marks_upto(*packet, t as int, i));
                        }
                        if spec_marks_upto(*packet, t as int, i) {
                            let w = choose|w: int| 0 <= w < t && spec_slot(*packet, w) == i;
                            assert(0 <= w < tn && spec_slot(*packet, w) == i);
                            assert(spec_marks_upto(*packet, tn, i));
                        }
                    }
                }
            }
            t += 1;
            proof {
                assert forall|i: int| 0 <= i < BLOOM_FILTER_LENGTH implies self@[i] == (orig[i]
                    || spec_marks_upto(*packet, t as int, i)) by {
                    assert(self@[i] == (orig[i] || spec_marks_upto(*packet, tn, i)));
                }
            }
        }
        proof {
            assert(self@ =~= spec_with_marks(*packet, orig));
        }
    }

    /// Clears every bit position the name addresses.
    #[verifier::rlimit(60)]
    pub fn delete(&mut self, packet: &HBFI)
        requires
            old(self).wf(),
        ensures
            final(self).wf(),
            final(self)@ == spec_without_marks(*packet, old(self)@),
    {
        let ghost orig: Seq<bool> = self@;
        let mut t: usize = 0;
        while t < 24
            invariant
                t <= 24,
                self.wf(),
                orig.len() == BLOOM_FILTER_LENGTH,
                spec_cleared_upto(*packet, orig, self@, t as int),
            decreases 24 - t,
        {
            let slot = (Self::entry(packet, t) as usize) % BLOOM_FILTER_LENGTH;
            let ghost pre: Seq<bool> = self@;
            let ghost tn: int = t + 1;
            bits_set(&mut self.sdr, slot, false);
            proof {
                assert(spec_slot(*packet, t as int) == slot as int);
                assert(self@ == pre.update(slot as int, false));
                assert forall|i: int| 0 <= i < BLOOM_FILTER_LENGTH implies self@[i] == (orig[i]
                    && !spec_marks_upto(*packet, tn, i)) by {
                    assert(spec_cleared_upto(*packet, orig, pre, t as int));
                    assert(pre[i] == (orig[i] && !spec_marks_upto(*packet, t as int, i)));
                    if i == slot as int {
                        assert(0 <= t < tn && spec_slot(*packet, t as int) == i);
                        assert(spec_marks_upto(*packet, tn, i));
                    } else {
                        if spec_marks_upto(*packet, tn, i) {
                            let w = choose|w: int| 0 <= w < tn && spec_slot(*packet, w) == i;
                            assert(w != t);
                            assert(0 <= w < t && spec_slot(*packet, w) == i);
                            assert(spec_marks_upto(*packet, t as int, i));
                        }
                        if spec_marks_upto(*packet, t as int, i) {
                            let w = choose|w: int| 0 <= w < t && spec_slot(*packet, w) == i;
                            assert(0 <= w < tn && spec_slot(*packet, w) == i);
                            assert(spec_marks_upto(*packet, tn, i));
                        }
                    }
                }
                assert(spec_cleared_upto(*packet, orig, self@, tn));
            }
            t += 1;
        }
        proof {
            assert(spec_cleared_upto(*packet, orig, self@, 24));
            assert(self@ =~= spec_without_marks(*packet, orig));
        }
    }

    /// How much of the name the filter remembers: the percentage of its
    /// twenty-four entries whose bit is set — not a yes or no.
    pub fn contains(&self, packet: &HBFI) -> (r: u8)
        requires
            self.wf(),
        ensures
            r == spec_hits(*packet, self@) * 100 / 24,
    {
        let mut hits: u32 = 0;
        let mut t: usize = 0;
        while t < 24
            invariant
                t <= 24,
                self.wf(),
                hits == spec_hits_upto(*packet, self@, t as int),
                hits <= t,
            decreases 24 - t,
        {
            let slot = (Self::entry(packet, t) as usize) % BLOOM_FILTER_LENGTH;
            proof {
                assert(spec_slot(*packet, t as int) == slot as int);
            }
            if bits_get(&self.sdr, slot) {
                hits += 1;
            }
            t += 1;
        }
        proof {
            lemma_hits_bound(*packet, self@, 24);
        }
        ((hits * 100) / 24) as u8
    }

    /// Clears a random sample of bit positions to bound staleness. Nothing
    /// is promised of which bits go; no bit is ever set by forgetting.
    pub fn partially_forget(&mut self)
        requires
            old(self).wf(),
        ensures
            final(self).wf(),
            forall|i: int| 0 <= i < BLOOM_FILTER_LENGTH && final(self)@[i] ==> old(self)@[i],
    {
        let ghost orig: Seq<bool> = self@;
        let mut t: usize = 0;
        while t < BLOOM_FILTER_LENGTH
            invariant
                self.wf(),
                orig.len() == BLOOM_FILTER_LENGTH,
                forall|i: int| 0 <= i < BLOOM_FILTER_LENGTH && self@[i] ==> orig[i],
            decreases BLOOM_FILTER_LENGTH - t,
        {
            let slot = random_below(BLOOM_FILTER_LENGTH);
            bits_set(&mut self.sdr, slot, false);
            t += 1;
        }
    }

    /// How full the filter is: the percentage of set bits.
    pub fn decoherence(&self) -> (r: u8)
        requires
            self.wf(),
        ensures
            r == spec_count_ones(self@, BLOOM_FILTER_LENGTH as int) * 100 / (
            BLOOM_FILTER_LENGTH as int),
    {
        let ones = bits_count_ones(&self.sdr);
        proof {
            lemma_count_ones_bound(self@, BLOOM_FILTER_LENGTH as int);
        }
        ((ones * 100) / BLOOM_FILTER_LENGTH) as u8
    }
}

/// Law: a name just inserted is fully remembered — its hit percentage is
/// one hundred.
pub proof fn lemma_inserted_is_contained(h: HBFI, bits: Seq<bool>)
    requires
        bits.len() == BLOOM_FILTER_LENGTH,
        forall|i: int| 0 <= i < BLOOM_FILTER_LENGTH ==> (spec_marks(h, i) ==> bits[i]),
    ensures
        spec_hits(h, bits) == 24,
        spec_hits(h, bits) * 100 / 24 == 100,
{
    lemma_hits_full(h, bits, 24);
}

/// Helper: every entry of the name finds its bit set.
proof fn lemma_hits_full(h: HBFI, bits: Seq<bool>, m: int)
    requires
        0 <= m <= 24,
        bits.len() == BLOOM_FILTER_LENGTH,
        forall|i: int| 0 <= i < BLOOM_FILTER_LENGTH ==> (spec_marks(h, i) ==> bits[i]),
    ensures
        spec_hits_upto(h, bits, m) == m,
    decreases m,
{
    if m > 0 {
        lemma_hits_full(h, bits, m - 1);
        let s = spec_slot(h, m - 1);
        assert(0 <= s < BLOOM_FILTER_LENGTH) by {
            assert((spec_entry(h, m - 1) as int) % (BLOOM_FILTER_LENGTH as int) >= 0);
        }
        assert(spec_marks(h, s));
    }
}

} // verus!
