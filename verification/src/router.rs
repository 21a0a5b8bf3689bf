use vstd::prelude::*;
use crate::bloom::spec_hits;
use crate::bloom::spec_without_marks;
use crate::bloom::spec_marks;
use crate::bloom::BloomFilter;
use crate::codec::serialize_hbfi;
use crate::codec::spec_hbfi_bytes;
use crate::constants::BLOOM_FILTER_LENGTH;
use crate::hbfi::HBFI;
use crate::link::InterLinkPacket;
use crate::link::LinkId;
use crate::link::LinkPacket;
use crate::narrow_waist::NarrowWaistPacket;

verus! {

/// What the router remembers about one link: names it still owes an answer
/// for, and names it has seen answers come from.
pub struct Blooms {
    pub pending_request: BloomFilter,
    pub forwarded_request: BloomFilter,
}

impl Blooms {
    /// Both filters of a fresh link are empty.
    pub fn new() -> (r: Blooms)
        ensures
            r.wf(),
            forall|i: int| 0 <= i < BLOOM_FILTER_LENGTH ==> !r.pending_request@[i],
            forall|i: int| 0 <= i < BLOOM_FILTER_LENGTH ==> !r.forwarded_request@[i],
    {
        Blooms { pending_request: BloomFilter::new(), forwarded_request: BloomFilter::new() }
    }

    /// Both filters keep their width.
    pub open spec fn wf(&self) -> bool {
        self.pending_request.wf() && self.forwarded_request.wf()
    }
}

/// The content store: responses kept under the fingerprint of their name's
/// wire bytes; the latest entry for a fingerprint wins.
pub struct ContentStore {
    entries: Vec<(Vec<u8>, NarrowWaistPacket)>,
}

/// What a store holds for a fingerprint: the most recent entry.
pub open spec fn spec_store_get(
    s: Seq<(Vec<u8>, NarrowWaistPacket)>,
    key: Seq<u8>,
) -> Option<NarrowWaistPacket>
    decreases s.len(),
{
    if s.len() == 0 {
        None
    } else if s.last().0@ == key {
        Some(s.last().1)
    } else {
        spec_store_get(s.drop_last(), key)
    }
}

impl View for ContentStore {
    type V = Seq<(Vec<u8>, NarrowWaistPacket)>;

    closed spec fn view(&self) -> Seq<(Vec<u8>, NarrowWaistPacket)> {
        self.entries@
    }
}

impl ContentStore {
    /// An empty store.
    pub fn new() -> (r: ContentStore)
        ensures
            r@.len() == 0,
    {
        ContentStore { entries: Vec::new() }
    }

    /// The response stored under a fingerprint, if any.
    pub fn get(&self, key: &Vec<u8>) -> (r: Option<NarrowWaistPacket>)
        ensures
            r == spec_store_get(self@, key@),
    {
        let mut i: usize = self.entries.len();
        proof {
            assert(self@.subrange(0, self@.len() as int) =~= self@);
        }
        while i > 0
            invariant
                i <= self@.len(),
                spec_store_get(self@, key@) == spec_store_get(self@.subrange(0, i as int), key@),
            decreases i,
        {
            i = i - 1;
            proof {
                assert(self@.subrange(0, i + 1).last() == self@[i as int]);
                assert(self@.subrange(0, i + 1).drop_last() =~= self@.subrange(0, i as int));
            }
            if vec_bytes_eq(&self.entries[i].0, key) {
                return Some(self.entries[i].1);
            }
        }
        proof {
            assert(self@.subrange(0, 0) =~= Seq::<(Vec<u8>, NarrowWaistPacket)>::empty());
        }
        None
    }

    /// Stores a response under a fingerprint; earlier entries for other
    /// fingerprints keep their answers.
    pub fn put(&mut self, key: Vec<u8>, nw: NarrowWaistPacket)
        ensures
            spec_store_get(final(self)@, key@) == Some(nw),
            forall|k2: Seq<u8>|
                k2 != key@ ==> #[trigger] spec_store_get(final(self)@, k2) == spec_store_get(
                    old(self)@,
                    k2,
                ),
    {
        let ghost orig = self@;
        let ghost k = key@;
        let ghost entry = (key, nw);
        self.entries.push((key, nw));
        proof {
            assert(self@.last().0@ == k);
            assert(self@.drop_last() =~= orig);
        }
    }
}

/// Whether two byte vectors hold the same bytes.
pub fn vec_bytes_eq(a: &Vec<u8>, b: &Vec<u8>) -> (r: bool)
    ensures
        r == (a@ == b@),
{
    if a.len() != b.len() {
        return false;
    }
    let mut i: usize = 0;
    while i < a.len()
        invariant
            i <= a@.len(),
            a@.len() == b@.len(),
            forall|k: int| 0 <= k < i ==> a@[k] == b@[k],
        decreases a@.len() - i,
    {
        if a[i] != b[i] {
            return false;
        }
        i += 1;
    }
    proof {
        assert(a@ =~= b@);
    }
    true
}

/// One peered link and its two filters.
pub struct LinkEntry {
    pub id: u64,
    pub blooms: Blooms,
}

/// The forwarding engine: every peered link's filters, the content store,
/// and the hit percentage above which a filter's answer counts as a match.
pub struct Router {
    pub links: Vec<LinkEntry>,
    pub store: ContentStore,
    pub threshold: u8,
}

/// Link entries stand in strictly increasing id order, so forwarding walks
/// them deterministically, and every filter has its width.
pub open spec fn spec_links_wf(s: Seq<LinkEntry>) -> bool {
    &&& forall|a: int, b: int| 0 <= a < b < s.len() ==> s[a].id < s[b].id
    &&& forall|a: int| 0 <= a < s.len() ==> (#[trigger] s[a]).blooms.wf()
}

impl Router {
    /// The router's invariant.
    pub open spec fn wf(&self) -> bool {
        spec_links_wf(self.links@) && self.threshold < 100
    }

    /// A router with no links and an empty store. The threshold is the hit
    /// percentage a filter must exceed before a link counts as interested;
    /// it must leave full matches above it.
    pub fn new(threshold: u8) -> (r: Router)
        requires
            threshold < 100,
        ensures
            r.wf(),
            r.links@.len() == 0,
            r.store@.len() == 0,
            r.threshold == threshold,
    {
        Router { links: Vec::new(), store: ContentStore::new(), threshold }
    }

    /// Where a link stands in the entry list, if it is peered.
    fn find_link(&self, id: u64) -> (r: Option<usize>)
        ensures
            match r {
                Some(i) => i < self.links@.len() && self.links@[i as int].id == id,
                None => forall|j: int| 0 <= j < self.links@.len() ==> self.links@[j].id != id,
            },
    {
        let mut i: usize = 0;
        while i < self.links.len()
            invariant
                i <= self.links@.len(),
                forall|j: int| 0 <= j < i ==> self.links@[j].id != id,
            decreases self.links@.len() - i,
        {
            if self.links[i].id == id {
                return Some(i);
            }
            i += 1;
        }
        None
    }

    /// Where a link id would stand in the entry list: either it is already
    /// present there, or every earlier entry is smaller and every later one
    /// larger.
    fn insert_pos(&self, id: u64) -> (r: (bool, usize))
        requires
            self.wf(),
        ensures
            r.0 ==> r.1 < self.links@.len() && self.links@[r.1 as int].id == id,
            !r.0 ==> r.1 <= self.links@.len() && (forall|j: int|
                0 <= j < r.1 ==> self.links@[j].id < id) && (forall|j: int|
                r.1 <= j < self.links@.len() ==> self.links@[j].id > id),
    {
        let mut i: usize = 0;
        while i < self.links.len()
            invariant
                self.wf(),
                i <= self.links@.len(),
                forall|j: int| 0 <= j < i ==> self.links@[j].id < id,
            decreases self.links@.len() - i,
        {
            if self.links[i].id == id {
                return (true, i);
            }
            if self.links[i].id > id {
                proof {
                    assert forall|j: int|
                        i <= j < self.links@.len() implies self.links@[j].id > id by {
                        if j > i {
                            assert(self.links@[i as int].id < self.links@[j].id);
                        }
                    }
                }
                return (false, i);
            }
            i += 1;
        }
        (false, i)
    }

    /// Peers a link: gives it fresh filters unless it is already known.
    pub fn add_link(&mut self, id: u64)
        requires
            old(self).wf(),
        ensures
            final(self).wf(),
            final(self).store@ == old(self).store@,
            final(self).threshold == old(self).threshold,
            exists|j: int|
                0 <= j < final(self).links@.len() && (#[trigger] final(self).links@[j]).id == id,
    {
        let (present, i) = self.insert_pos(id);
        if present {
            return ;
        }
        let entry = LinkEntry { id, blooms: Blooms::new() };
        self.links.insert(i, entry);
        proof {
            assert(self.links@[i as int].id == id);
            assert forall|a: int, b: int|
                0 <= a < b < self.links@.len() implies self.links@[a].id
                < self.links@[b].id by {
                if b < i {
                } else if a < i && b == i {
                    assert(old(self).links@[a].id < id);
                } else if a < i && b > i {
                    assert(self.links@[b] == old(self).links@[b - 1]);
                    assert(old(self).links@[b - 1].id > id);
                } else if a == i && b > i {
                    assert(self.links@[b] == old(self).links@[b - 1]);
                    assert(old(self).links@[b - 1].id > id);
                } else {
                    assert(self.links@[a] == old(self).links@[a - 1]);
                    assert(self.links@[b] == old(self).links@[b - 1]);
                }
            }
            assert forall|a: int|
                0 <= a < self.links@.len() implies (#[trigger] self.links@[a]).blooms.wf() by {
                if a < i {
                } else if a == i {
                } else {
                    assert(self.links@[a] == old(self).links@[a - 1]);
                }
            }
        }
    }
}

/// A mutable window into one link entry.
fn link_mut(links: &mut Vec<LinkEntry>, i: usize) -> (r: &mut LinkEntry)
    requires
        i < old(links)@.len(),
    ensures
        *r == old(links)@[i as int],
        final(links)@ == old(links)@.update(i as int, *final(r)),
{
    &mut links[i]
}

/// A mutable window into one link's pending filter; everything else about
/// the entry list stays as it was.
fn pit_mut(links: &mut Vec<LinkEntry>, i: usize) -> (r: &mut BloomFilter)
    requires
        i < old(links)@.len(),
    ensures
        *r == old(links)@[i as int].blooms.pending_request,
        final(links)@ == old(links)@.update(
            i as int,
            (LinkEntry {
                id: old(links)@[i as int].id,
                blooms: (Blooms {
                    pending_request: *final(r),
                    forwarded_request: old(links)@[i as int].blooms.forwarded_request,
                }),
            }),
        ),
{
    &mut links[i].blooms.pending_request
}

/// The fingerprint a response is stored and looked up under: the digest
/// of its name's wire bytes.
pub open spec fn spec_fingerprint(h: HBFI) -> Seq<u8> {
    crate::crypto::sha256_of(spec_hbfi_bytes(h))
}

/// Computes a name's fingerprint.
pub fn fingerprint(hbfi: &HBFI) -> (r: Vec<u8>)
    ensures
        r@ == spec_fingerprint(*hbfi),
{
    let (_size, wire) = serialize_hbfi(hbfi);
    let digest = crate::crypto::sha256(&wire);
    let mut r: Vec<u8> = Vec::new();
    crate::bytes::extend_bytes(&mut r, &digest);
    proof {
        assert(r@ =~= spec_fingerprint(*hbfi));
    }
    r
}

/// Whether a link's forwarding filter matches a name above the threshold.
pub open spec fn spec_fib_hit(s: Seq<LinkEntry>, j: int, h: HBFI, threshold: u8) -> bool {
    spec_hits(h, s[j].blooms.forwarded_request@) * 100 / 24 > threshold
}

/// Whether a link's pending filter matches a name above the threshold.
pub open spec fn spec_pit_hit(s: Seq<LinkEntry>, j: int, h: HBFI, threshold: u8) -> bool {
    spec_hits(h, s[j].blooms.pending_request@) * 100 / 24 > threshold
}

/// Whether any link but the arriving one has served the name before: the
/// choice between directed forwarding and broadcast.
pub open spec fn spec_any_fib_hit(s: Seq<LinkEntry>, h: HBFI, threshold: u8, arriving: u64) -> bool {
    exists|j: int| 0 <= j < s.len() && (#[trigger] s[j]).id != arriving && spec_fib_hit(s, j, h, threshold)
}

/// Whether a packet leaves by the link at one position: never the arriving
/// link, and — unless broadcasting — only one whose chosen filter matched.
pub open spec fn spec_selected(
    s: Seq<LinkEntry>,
    j: int,
    h: HBFI,
    threshold: u8,
    arriving: u64,
    use_pending: bool,
    broadcast: bool,
) -> bool {
    s[j].id != arriving && (broadcast || (if use_pending {
        spec_pit_hit(s, j, h, threshold)
    } else {
        spec_fib_hit(s, j, h, threshold)
    }))
}

/// What a link's pending filter holds after a response was dispatched: the
/// name's marks cleared where the filter had matched, untouched otherwise.
pub open spec fn spec_pit_after(
    s_old: Seq<LinkEntry>,
    j: int,
    h: HBFI,
    threshold: u8,
    newpit: Seq<bool>,
) -> bool {
    if spec_pit_hit(s_old, j, h, threshold) {
        newpit == spec_without_marks(h, s_old[j].blooms.pending_request@)
    } else {
        newpit == s_old[j].blooms.pending_request@
    }
}

/// That one forward of a missed request goes to a link the selection
/// picks.
pub open spec fn spec_request_forward_ok(
    s: Seq<LinkEntry>,
    out: Seq<InterLinkPacket>,
    h: HBFI,
    t: u8,
    arriving: u64,
    bcast: bool,
    k: int,
) -> bool {
    exists|j: int|
        0 <= j < s.len() && #[trigger] spec_selected(s, j, h, t, arriving, false, bcast)
            && s[j].id == out[k].link_id.id
}

/// Every forward of a missed request goes to a link the selection picks:
/// a forwarding-filter match, or any other link when broadcasting.
#[verifier::opaque]
pub open spec fn spec_request_forwards_sound(
    s: Seq<LinkEntry>,
    out: Seq<InterLinkPacket>,
    h: HBFI,
    t: u8,
    arriving: u64,
    bcast: bool,
) -> bool {
    forall|k: int|
        0 <= k < out.len() ==> #[trigger] spec_request_forward_ok(s, out, h, t, arriving, bcast, k)
}

/// Every link the selection picks receives the missed request.
#[verifier::opaque]
pub open spec fn spec_request_forwards_complete(
    s: Seq<LinkEntry>,
    out: Seq<InterLinkPacket>,
    h: HBFI,
    t: u8,
    arriving: u64,
    bcast: bool,
) -> bool {
    forall|j: int|
        0 <= j < s.len() && #[trigger] spec_selected(s, j, h, t, arriving, false, bcast)
            ==> exists|k: int|
            0 <= k < out.len() && (#[trigger] out[k]).link_id.id == s[j].id
}

/// That one forward of a response goes to another link whose pending
/// filter matched the name.
pub open spec fn spec_response_forward_ok(
    s: Seq<LinkEntry>,
    out: Seq<InterLinkPacket>,
    h: HBFI,
    t: u8,
    arriving: u64,
    k: int,
) -> bool {
    exists|j: int|
        0 <= j < s.len() && s[j].id == out[k].link_id.id && s[j].id != arriving
            && #[trigger] spec_pit_hit(s, j, h, t)
}

/// Every forward of a response goes to another link whose pending filter
/// matched the name.
#[verifier::opaque]
pub open spec fn spec_response_forwards_sound(
    s: Seq<LinkEntry>,
    out: Seq<InterLinkPacket>,
    h: HBFI,
    t: u8,
    arriving: u64,
) -> bool {
    forall|k: int|
        0 <= k < out.len() ==> #[trigger] spec_response_forward_ok(s, out, h, t, arriving, k)
}

/// Every other link whose pending filter matched receives the response.
#[verifier::opaque]
pub open spec fn spec_response_forwards_complete(
    s: Seq<LinkEntry>,
    out: Seq<InterLinkPacket>,
    h: HBFI,
    t: u8,
    arriving: u64,
) -> bool {
    forall|j: int|
        0 <= j < s.len() && (#[trigger] s[j]).id != arriving && spec_pit_hit(s, j, h, t)
            ==> exists|k: int|
            0 <= k < out.len() && (#[trigger] out[k]).link_id.id == s[j].id
}

impl Router {
    /// Gathers the packet's forwards, in ascending link-id order: exactly
    /// the links the selection predicate picks, each carrying the arriving
    /// packet and its return address. The ghost sequence names, for each
    /// forward, the position of the link it goes to.
    #[verifier::rlimit(100)]
    fn collect_forwards(
        &self,
        ilp: &InterLinkPacket,
        hbfi: &HBFI,
        idx: usize,
        use_pending: bool,
        broadcast: bool,
    ) -> (out: (Vec<InterLinkPacket>, Ghost<Seq<int>>))
        requires
            self.wf(),
            idx < self.links@.len(),
            self.links@[idx as int].id == ilp.link_id.id,
        ensures
            out.1@.len() == out.0@.len(),
            forall|k: int|
                0 <= k < out.0@.len() ==> (#[trigger] out.0@[k]).link_id.id != ilp.link_id.id
                    && out.0@[k].link_packet.narrow_waist == ilp.link_packet.narrow_waist
                    && out.0@[k].link_packet.reply_to == ilp.link_packet.reply_to,
            forall|k1: int, k2: int|
                0 <= k1 < k2 < out.0@.len() ==> out.0@[k1].link_id.id < out.0@[k2].link_id.id,
            forall|k: int|
                0 <= k < out.0@.len() ==> 0 <= (#[trigger] out.1@[k]) < self.links@.len()
                    && spec_selected(
                    self.links@,
                    out.1@[k],
                    *hbfi,
                    self.threshold,
                    ilp.link_id.id,
                    use_pending,
                    broadcast,
                ) && self.links@[out.1@[k]].id == out.0@[k].link_id.id,
            forall|j: int|
                0 <= j < self.links@.len() && #[trigger] spec_selected(
                    self.links@,
                    j,
                    *hbfi,
                    self.threshold,
                    ilp.link_id.id,
                    use_pending,
                    broadcast,
                ) ==> exists|k: int|
                    0 <= k < out.0@.len() && (#[trigger] out.0@[k]).link_id.id
                        == self.links@[j].id,
    {
        let ghost s = self.links@;
        let ghost t = self.threshold;
        let ghost arriving = ilp.link_id.id;
        let ghost mut src: Seq<int> = Seq::empty();
        let mut out: Vec<InterLinkPacket> = Vec::new();
        let mut j: usize = 0;
        while j < self.links.len()
            invariant
                j <= s.len(),
                idx < s.len(),
                self.wf(),
                s == self.links@,
                t == self.threshold,
                arriving == ilp.link_id.id,
                s[idx as int].id == arriving,
                src.len() == out@.len(),
                forall|k: int|
                    0 <= k < out@.len() ==> 0 <= (#[trigger] src[k]) < j && spec_selected(
                        s,
                        src[k],
                        *hbfi,
                        t,
                        arriving,
                        use_pending,
                        broadcast,
                    ) && s[src[k]].id == out@[k].link_id.id,
                forall|k1: int, k2: int| 0 <= k1 < k2 < src.len() ==> src[k1] < src[k2],
                forall|k: int|
                    0 <= k < out@.len() ==> (#[trigger] out@[k]).link_id.id != arriving
                        && out@[k].link_packet.narrow_waist == ilp.link_packet.narrow_waist
                        && out@[k].link_packet.reply_to == ilp.link_packet.reply_to,
                forall|a: int|
                    0 <= a < j && #[trigger] spec_selected(
                        s,
                        a,
                        *hbfi,
                        t,
                        arriving,
                        use_pending,
                        broadcast,
                    ) ==> exists|k: int|
                        0 <= k < out@.len() && (#[trigger] out@[k]).link_id.id == s[a].id,
            decreases s.len() - j,
        {
            let ghost out_pre = out@;
            let ghost src_pre = src;
            let mut take = false;
            if j != idx {
                if broadcast {
                    take = true;
                } else {
                    let pct = if use_pending {
                        self.links[j].blooms.pending_request.contains(hbfi)
                    } else {
                        self.links[j].blooms.forwarded_request.contains(hbfi)
                    };
                    take = pct > self.threshold;
                }
            }
            proof {
                if j != idx {
                    if (j as int) < idx as int {
                        assert(s[j as int].id < s[idx as int].id);
                    } else {
                        assert(s[idx as int].id < s[j as int].id);
                    }
                    assert(s[j as int].id != arriving);
                    assert(take == spec_selected(
                        s,
                        j as int,
                        *hbfi,
                        t,
                        arriving,
                        use_pending,
                        broadcast,
                    ));
                } else {
                    assert(!spec_selected(s, j as int, *hbfi, t, arriving, use_pending, broadcast));
                }
            }
            if take {
                out.push(
                    InterLinkPacket::new(
                        LinkId::new(self.links[j].id),
                        LinkPacket::new(ilp.link_packet.reply_to, ilp.link_packet.narrow_waist),
                    ),
                );
                proof {
                    src = src.push(j as int);
                    assert(out@[out@.len() - 1].link_id.id == s[j as int].id);
                    assert(src[src.len() - 1] == j as int);
                    assert forall|k: int|
                        0 <= k < out@.len() implies 0 <= (#[trigger] src[k]) < j + 1
                        && spec_selected(s, src[k], *hbfi, t, arriving, use_pending, broadcast)
                        && s[src[k]].id == out@[k].link_id.id by {
                        if k < out@.len() - 1 {
                            assert(src[k] == src_pre[k]);
                            assert(out@[k] == out_pre[k]);
                            assert(0 <= src_pre[k] < j && spec_selected(
                                s,
                                src_pre[k],
                                *hbfi,
                                t,
                                arriving,
                                use_pending,
                                broadcast,
                            ) && s[src_pre[k]].id == out_pre[k].link_id.id);
                        }
                    }
                    assert forall|k1: int, k2: int|
                        0 <= k1 < k2 < src.len() implies src[k1] < src[k2] by {
                        assert(src[k1] == src_pre[k1]);
                        if k2 == src.len() - 1 {
                            assert(0 <= src_pre[k1] < j && spec_selected(
                                s,
                                src_pre[k1],
                                *hbfi,
                                t,
                                arriving,
                                use_pending,
                                broadcast,
                            ) && s[src_pre[k1]].id == out_pre[k1].link_id.id);
                        } else {
                            assert(src[k2] == src_pre[k2]);
                        }
                    }
                    assert forall|a: int|
                        0 <= a < j + 1 && #[trigger] spec_selected(
                            s,
                            a,
                            *hbfi,
                            t,
                            arriving,
                            use_pending,
                            broadcast,
                        ) implies exists|k: int|
                        0 <= k < out@.len() && (#[trigger] out@[k]).link_id.id == s[a].id by {
                        if a == j {
                            assert(out@[out@.len() - 1].link_id.id == s[a].id);
                        } else {
                            let k0 = choose|k0: int|
                                0 <= k0 < out_pre.len() && out_pre[k0].link_id.id == s[a].id;
                            assert(out@[k0] == out_pre[k0]);
                            assert(out@[k0].link_id.id == s[a].id);
                        }
                    }
                }
            } else {
                proof {
                    assert forall|a: int|
                        0 <= a < j + 1 && #[trigger] spec_selected(
                            s,
                            a,
                            *hbfi,
                            t,
                            arriving,
                            use_pending,
                            broadcast,
                        ) implies exists|k: int|
                        0 <= k < out@.len() && (#[trigger] out@[k]).link_id.id == s[a].id by {
                        if a < j {
                            let k0 = choose|k0: int|
                                0 <= k0 < out_pre.len() && out_pre[k0].link_id.id == s[a].id;
                            assert(out@[k0].link_id.id == s[a].id);
                        }
                    }
                }
            }
            j += 1;
        }
        proof {
            assert forall|k1: int, k2: int|
                0 <= k1 < k2 < out@.len() implies out@[k1].link_id.id < out@[k2].link_id.id by {
                assert(0 <= src[k1] < s.len() && s[src[k1]].id == out@[k1].link_id.id);
                assert(0 <= src[k2] < s.len() && s[src[k2]].id == out@[k2].link_id.id);
                assert(src[k1] < src[k2]);
                assert(s[src[k1]].id < s[src[k2]].id);
            }
        }
        (out, Ghost(src))
    }

    /// Handles one packet arriving on a peered link and returns what to
    /// send, each packet tagged with the link it leaves by, in ascending
    /// link-id order.
    ///
    /// A request records the link's interest in its name; it is answered
    /// from the store when possible, otherwise passed to exactly the links
    /// whose forwarding filters have seen the name, or to everyone when no
    /// filter has. A response must carry a sound signature, or it is
    /// dropped with nothing changed; a sound one is stored under its
    /// name's fingerprint, its source is recorded in the arriving link's
    /// forwarding filter, and it goes to every other link that recorded
    /// interest, whose interest is then cleared.
    #[verifier::rlimit(100)]
    pub fn handle_packet(&mut self, ilp: &InterLinkPacket) -> (out: Vec<InterLinkPacket>)
        requires
            old(self).wf(),
            exists|j: int|
                0 <= j < old(self).links@.len() && (#[trigger] old(self).links@[j]).id
                    == ilp.link_id.id,
        ensures
            final(self).wf(),
            final(self).links@.len() == old(self).links@.len(),
            final(self).threshold == old(self).threshold,
            forall|j: int|
                0 <= j < old(self).links@.len() ==> (#[trigger] final(self).links@[j]).id == old(self).links@[j].id,
            ({
                let nw = ilp.link_packet.narrow_waist;
                let h = nw.spec_hbfi();
                let key = spec_fingerprint(h);
                let s = old(self).links@;
                let t = old(self).threshold;
                let arriving = ilp.link_id.id;
                &&& (nw is Request ==> ({
                    &&& final(self).store@ == old(self).store@
                    &&& (exists|j: int|
                        0 <= j < final(self).links@.len() && (#[trigger] final(self).links@[j]).id
                            == arriving && (forall|i: int|
                            0 <= i < BLOOM_FILTER_LENGTH ==> (spec_marks(h, i) ==> final(self).links@[j].blooms.pending_request@[i])))
                    &&& (match spec_store_get(old(self).store@, key) {
                        Some(resp) => out@.len() == 1 && out@[0].link_id == ilp.link_id
                            && out@[0].link_packet.narrow_waist == resp
                            && out@[0].link_packet.reply_to == ilp.link_packet.reply_to,
                        None => ({
                            let bcast = !spec_any_fib_hit(s, h, t, arriving);
                            &&& (forall|k: int|
                                0 <= k < out@.len() ==> (#[trigger] out@[k]).link_id.id != arriving
                                    && out@[k].link_packet.narrow_waist == nw
                                    && out@[k].link_packet.reply_to == ilp.link_packet.reply_to)
                            &&& (forall|k1: int, k2: int|
                                0 <= k1 < k2 < out@.len() ==> out@[k1].link_id.id
                                    < out@[k2].link_id.id)
                            &&& spec_request_forwards_sound(s, out@, h, t, arriving, bcast)
                            &&& spec_request_forwards_complete(s, out@, h, t, arriving, bcast)
                        }),
                    })
                }))
                &&& (nw is Response && !nw.spec_verified() ==> out@.len() == 0 && *final(self)
                    == *old(self))
                &&& (nw is Response && nw.spec_verified() ==> ({
                    &&& spec_store_get(final(self).store@, key) == Some(nw)
                    &&& (forall|k2: Seq<u8>|
                        k2 != key ==> #[trigger] spec_store_get(final(self).store@, k2)
                            == spec_store_get(old(self).store@, k2))
                    &&& (exists|j: int|
                        0 <= j < final(self).links@.len() && (#[trigger] final(self).links@[j]).id
                            == arriving && (forall|i: int|
                            0 <= i < BLOOM_FILTER_LENGTH ==> (spec_marks(h, i) ==> final(self).links@[j].blooms.forwarded_request@[i])))
                    &&& (forall|j: int|
                        0 <= j < s.len() && (#[trigger] s[j]).id != arriving ==> final(self).links@[j].blooms.forwarded_request@ == s[j].blooms.forwarded_request@)
                    &&& (forall|j: int|
                        0 <= j < s.len() && (#[trigger] s[j]).id == arriving ==> final(self).links@[j].blooms.pending_request@ == s[j].blooms.pending_request@)
                    &&& (forall|j: int|
                        0 <= j < s.len() && (#[trigger] s[j]).id != arriving ==> spec_pit_after(
                            s,
                            j,
                            h,
                            t,
                            final(self).links@[j].blooms.pending_request@,
                        ))
                    &&& (forall|k: int|
                        0 <= k < out@.len() ==> (#[trigger] out@[k]).link_id.id != arriving
                            && out@[k].link_packet.narrow_waist == nw
                            && out@[k].link_packet.reply_to == ilp.link_packet.reply_to)
                    &&& (forall|k1: int, k2: int|
                        0 <= k1 < k2 < out@.len() ==> out@[k1].link_id.id < out@[k2].link_id.id)
                    &&& spec_response_forwards_sound(s, out@, h, t, arriving)
                    &&& spec_response_forwards_complete(s, out@, h, t, arriving)
                }))
            }),
    {
        let nw = ilp.link_packet.narrow_waist;
        let (hbfi, is_request) = match &nw {
            NarrowWaistPacket::Request { hbfi, .. } => (*hbfi, true),
            NarrowWaistPacket::Response { hbfi, .. } => (*hbfi, false),
        };
        let idx = match self.find_link(ilp.link_id.id) {
            Some(i) => i,
            None => {
                proof {
                    assert(false);
                }
                return Vec::new();
            },
        };
        let key = fingerprint(&hbfi);
        if is_request {
            let out = self.handle_request(ilp, &hbfi, idx, key);
            proof {
                assert(0 <= idx < self.links@.len() && self.links@[idx as int].id
                    == ilp.link_id.id && (forall|i: int|
                    0 <= i < BLOOM_FILTER_LENGTH ==> (spec_marks(hbfi, i)
                        ==> self.links@[idx as int].blooms.pending_request@[i])));
            }
            out
        } else {
            let verified = match nw.verify() {
                Ok(v) => v,
                Err(_) => false,
            };
            if !verified {
                return Vec::new();
            }
            let out = self.handle_response(ilp, &hbfi, idx, key);
            proof {
                assert(0 <= idx < self.links@.len() && self.links@[idx as int].id
                    == ilp.link_id.id && (forall|i: int|
                    0 <= i < BLOOM_FILTER_LENGTH ==> (spec_marks(hbfi, i)
                        ==> self.links@[idx as int].blooms.forwarded_request@[i])));
                assert forall|j: int|
                    0 <= j < old(self).links@.len() && (#[trigger] old(self).links@[j]).id
                        != ilp.link_id.id implies j != idx as int by {}
                assert forall|j: int|
                    0 <= j < old(self).links@.len() && (#[trigger] old(self).links@[j]).id
                        == ilp.link_id.id implies j == idx as int by {
                    if j != idx {
                        if j < idx as int {
                            assert(old(self).links@[j].id < old(self).links@[idx as int].id);
                        } else {
                            assert(old(self).links@[idx as int].id < old(self).links@[j].id);
                        }
                    }
                }
            }
            out
        }
    }

    /// Records the interest, then answers from the store or forwards: to
    /// the links whose forwarding filters have seen the name, or, when none
    /// has, to every other link.
    #[verifier::rlimit(100)]
    fn handle_request(
        &mut self,
        ilp: &InterLinkPacket,
        hbfi: &HBFI,
        idx: usize,
        key: Vec<u8>,
    ) -> (out: Vec<InterLinkPacket>)
        requires
            old(self).wf(),
            ilp.link_packet.narrow_waist is Request,
            *hbfi == ilp.link_packet.narrow_waist.spec_hbfi(),
            idx < old(self).links@.len(),
            old(self).links@[idx as int].id == ilp.link_id.id,
            key@ == spec_fingerprint(*hbfi),
        ensures
            final(self).wf(),
            final(self).links@.len() == old(self).links@.len(),
            final(self).threshold == old(self).threshold,
            final(self).store@ == old(self).store@,
            forall|j: int|
                0 <= j < old(self).links@.len() ==> (#[trigger] final(self).links@[j]).id == old(self).links@[j].id,
            forall|i: int|
                0 <= i < BLOOM_FILTER_LENGTH ==> (spec_marks(*hbfi, i) ==> final(self).links@[idx as int].blooms.pending_request@[i]),
            match spec_store_get(old(self).store@, spec_fingerprint(*hbfi)) {
                Some(resp) => out@.len() == 1 && out@[0].link_id == ilp.link_id
                    && out@[0].link_packet.narrow_waist == resp && out@[0].link_packet.reply_to
                    == ilp.link_packet.reply_to,
                None => ({
                    let s = old(self).links@;
                    let t = old(self).threshold;
                    let arriving = ilp.link_id.id;
                    let bcast = !spec_any_fib_hit(s, *hbfi, t, arriving);
                    &&& (forall|k: int|
                        0 <= k < out@.len() ==> (#[trigger] out@[k]).link_id.id != arriving
                            && out@[k].link_packet.narrow_waist == ilp.link_packet.narrow_waist
                            && out@[k].link_packet.reply_to == ilp.link_packet.reply_to)
                    &&& (forall|k1: int, k2: int|
                        0 <= k1 < k2 < out@.len() ==> out@[k1].link_id.id < out@[k2].link_id.id)
                    &&& spec_request_forwards_sound(s, out@, *hbfi, t, arriving, bcast)
                    &&& spec_request_forwards_complete(s, out@, *hbfi, t, arriving, bcast)
                }),
            },
    {
        let ghost orig = *self;
        let entry = link_mut(&mut self.links, idx);
        entry.blooms.pending_request.insert(hbfi);
        proof {
            assert forall|a: int, b: int|
                0 <= a < b < self.links@.len() implies self.links@[a].id
                < self.links@[b].id by {
                assert(orig.links@[a].id < orig.links@[b].id);
            }
            assert forall|a: int|
                0 <= a < self.links@.len() implies (#[trigger] self.links@[a]).blooms.wf() by {
                assert(orig.links@[a].blooms.wf());
            }
            assert forall|a: int|
                0 <= a < self.links@.len() implies (#[trigger] self.links@[a]).id
                == orig.links@[a].id && self.links@[a].blooms.forwarded_request@
                == orig.links@[a].blooms.forwarded_request@ by {
                if a != idx {
                    assert(self.links@[a] == orig.links@[a]);
                }
            }
        }
        match self.store.get(&key) {
            Some(resp) => {
                let mut out: Vec<InterLinkPacket> = Vec::new();
                out.push(
                    InterLinkPacket::new(
                        ilp.link_id,
                        LinkPacket::new(ilp.link_packet.reply_to, resp),
                    ),
                );
                out
            },
            None => {
                let ghost cur = *self;
                proof {
                    lemma_same_selection(cur.links@, orig.links@, *hbfi, cur.threshold);
                }
                let ret = self.collect_forwards(ilp, hbfi, idx, false, false);
                if ret.0.len() > 0 {
                    proof {
                        let s0 = orig.links@;
                        let t = orig.threshold;
                        let arriving = ilp.link_id.id;
                        let jw = ret.1@[0];
                        assert(cur.links@[jw].id == ret.0@[0].link_id.id);
                        assert(cur.links@[jw].id != arriving && spec_fib_hit(
                            cur.links@,
                            jw,
                            *hbfi,
                            t,
                        ));
                        assert(spec_any_fib_hit(cur.links@, *hbfi, t, arriving));
                        assert(spec_any_fib_hit(s0, *hbfi, t, arriving));
                        lemma_request_sound_from_witness(
                            cur.links@,
                            s0,
                            ret.0@,
                            ret.1@,
                            *hbfi,
                            t,
                            arriving,
                            false,
                        );
                        assert(spec_request_forwards_complete(
                            s0,
                            ret.0@,
                            *hbfi,
                            t,
                            arriving,
                            false,
                        )) by {
                            reveal(spec_request_forwards_complete);
                            assert forall|jj: int|
                                0 <= jj < s0.len() && #[trigger] spec_selected(
                                    s0,
                                    jj,
                                    *hbfi,
                                    t,
                                    arriving,
                                    false,
                                    false,
                                ) implies exists|k: int|
                                0 <= k < ret.0@.len() && (#[trigger] ret.0@[k]).link_id.id
                                    == s0[jj].id by {
                                assert(spec_selected(
                                    cur.links@,
                                    jj,
                                    *hbfi,
                                    t,
                                    arriving,
                                    false,
                                    false,
                                ));
                                let k0 = choose|k0: int|
                                    0 <= k0 < ret.0@.len() && ret.0@[k0].link_id.id
                                        == cur.links@[jj].id;
                                assert(ret.0@[k0].link_id.id == s0[jj].id);
                            }
                        }
                    }
                    return ret.0;
                }
                proof {
                    let t = orig.threshold;
                    let arriving = ilp.link_id.id;
                    assert forall|j: int| #![trigger cur.links@[j]]
                        0 <= j < cur.links@.len() implies !spec_selected(
                        cur.links@,
                        j,
                        *hbfi,
                        t,
                        arriving,
                        false,
                        false,
                    ) by {
                        if spec_selected(cur.links@, j, *hbfi, t, arriving, false, false) {
                            let k = choose|k: int|
                                0 <= k < ret.0@.len() && ret.0@[k].link_id.id == cur.links@[j].id;
                            assert(false);
                        }
                    }
                    if spec_any_fib_hit(cur.links@, *hbfi, t, arriving) {
                        let jw = choose|j: int|
                            0 <= j < cur.links@.len() && (#[trigger] cur.links@[j]).id != arriving
                                && spec_fib_hit(cur.links@, j, *hbfi, t);
                        assert(spec_selected(cur.links@, jw, *hbfi, t, arriving, false, false));
                        assert(false);
                    }
                    assert(!spec_any_fib_hit(orig.links@, *hbfi, t, arriving));
                }
                let ret2 = self.collect_forwards(ilp, hbfi, idx, false, true);
                proof {
                    let s0 = orig.links@;
                    let t = orig.threshold;
                    let arriving = ilp.link_id.id;
                    lemma_request_sound_from_witness(
                        cur.links@,
                        s0,
                        ret2.0@,
                        ret2.1@,
                        *hbfi,
                        t,
                        arriving,
                        true,
                    );
                    assert(spec_request_forwards_complete(
                        s0,
                        ret2.0@,
                        *hbfi,
                        t,
                        arriving,
                        true,
                    )) by {
                        reveal(spec_request_forwards_complete);
                        assert forall|jj: int|
                            0 <= jj < s0.len() && #[trigger] spec_selected(
                                s0,
                                jj,
                                *hbfi,
                                t,
                                arriving,
                                false,
                                true,
                            ) implies exists|k: int|
                            0 <= k < ret2.0@.len() && (#[trigger] ret2.0@[k]).link_id.id
                                == s0[jj].id by {
                            assert(spec_selected(
                                cur.links@,
                                jj,
                                *hbfi,
                                t,
                                arriving,
                                false,
                                true,
                            ));
                            let k0 = choose|k0: int|
                                0 <= k0 < ret2.0@.len() && ret2.0@[k0].link_id.id
                                    == cur.links@[jj].id;
                            assert(ret2.0@[k0].link_id.id == s0[jj].id);
                        }
                    }
                }
                ret2.0
            },
        }
    }

    /// Stores the verified response under its fingerprint, records its
    /// source in the arriving link's forwarding filter, and passes it to
    /// every other link that recorded interest, clearing that interest.
    #[verifier::rlimit(100)]
    fn handle_response(
        &mut self,
        ilp: &InterLinkPacket,
        hbfi: &HBFI,
        idx: usize,
        key: Vec<u8>,
    ) -> (out: Vec<InterLinkPacket>)
        requires
            old(self).wf(),
            ilp.link_packet.narrow_waist is Response,
            *hbfi == ilp.link_packet.narrow_waist.spec_hbfi(),
            idx < old(self).links@.len(),
            old(self).links@[idx as int].id == ilp.link_id.id,
            key@ == spec_fingerprint(*hbfi),
        ensures
            final(self).wf(),
            final(self).links@.len() == old(self).links@.len(),
            final(self).threshold == old(self).threshold,
            forall|j: int|
                0 <= j < old(self).links@.len() ==> (#[trigger] final(self).links@[j]).id == old(self).links@[j].id,
            spec_store_get(final(self).store@, spec_fingerprint(*hbfi)) == Some(
                ilp.link_packet.narrow_waist,
            ),
            forall|k2: Seq<u8>|
                k2 != spec_fingerprint(*hbfi) ==> #[trigger] spec_store_get(final(self).store@, k2)
                    == spec_store_get(old(self).store@, k2),
            forall|i: int|
                0 <= i < BLOOM_FILTER_LENGTH ==> (spec_marks(*hbfi, i) ==> final(self).links@[idx as int].blooms.forwarded_request@[i]),
            final(self).links@[idx as int].blooms.pending_request@ == old(self).links@[idx as int].blooms.pending_request@,
            forall|j: int|
                0 <= j < old(self).links@.len() && j != idx ==> (#[trigger] final(self).links@[j]).blooms.forwarded_request@ == old(self).links@[j].blooms.forwarded_request@,
            forall|j: int|
                0 <= j < old(self).links@.len() && j != idx ==> spec_pit_after(
                    old(self).links@,
                    j,
                    *hbfi,
                    old(self).threshold,
                    (#[trigger] final(self).links@[j]).blooms.pending_request@,
                ),
            forall|k: int|
                0 <= k < out@.len() ==> (#[trigger] out@[k]).link_id.id != ilp.link_id.id
                    && out@[k].link_packet.narrow_waist == ilp.link_packet.narrow_waist
                    && out@[k].link_packet.reply_to == ilp.link_packet.reply_to,
            forall|k1: int, k2: int|
                0 <= k1 < k2 < out@.len() ==> out@[k1].link_id.id < out@[k2].link_id.id,
            spec_response_forwards_sound(
                old(self).links@,
                out@,
                *hbfi,
                old(self).threshold,
                ilp.link_id.id,
            ),
            spec_response_forwards_complete(
                old(self).links@,
                out@,
                *hbfi,
                old(self).threshold,
                ilp.link_id.id,
            ),
    {
        let ghost orig = *self;
        self.store.put(key, ilp.link_packet.narrow_waist);
        let entry = link_mut(&mut self.links, idx);
        entry.blooms.forwarded_request.insert(hbfi);
        proof {
            assert forall|a: int, b: int|
                0 <= a < b < self.links@.len() implies self.links@[a].id
                < self.links@[b].id by {
                assert(orig.links@[a].id < orig.links@[b].id);
            }
            assert forall|a: int|
                0 <= a < self.links@.len() implies (#[trigger] self.links@[a]).blooms.wf() by {
                assert(orig.links@[a].blooms.wf());
            }
            assert forall|a: int|
                0 <= a < self.links@.len() implies (#[trigger] self.links@[a]).id
                == orig.links@[a].id && self.links@[a].blooms.pending_request@
                == orig.links@[a].blooms.pending_request@ by {
                if a != idx {
                    assert(self.links@[a] == orig.links@[a]);
                }
            }
        }
        let ret = self.collect_forwards(ilp, hbfi, idx, true, false);
        let ghost mid = *self;
        proof {
            assert forall|j: int|
                0 <= j < orig.links@.len() && (#[trigger] orig.links@[j]).id != ilp.link_id.id
                    && spec_pit_hit(orig.links@, j, *hbfi, orig.threshold) implies spec_selected(
                mid.links@,
                j,
                *hbfi,
                mid.threshold,
                ilp.link_id.id,
                true,
                false,
            ) by {
                assert(mid.links@[j].id == orig.links@[j].id);
                assert(mid.links@[j].blooms.pending_request@
                    == orig.links@[j].blooms.pending_request@);
            }
        }
        let mut j: usize = 0;
        while j < self.links.len()
            invariant
                j <= self.links@.len(),
                idx < self.links@.len(),
                self.wf(),
                self.store@ == mid.store@,
                self.links@.len() == orig.links@.len(),
                self.threshold == orig.threshold,
                self.links@[idx as int] == mid.links@[idx as int],
                forall|a: int|
                    0 <= a < self.links@.len() ==> (#[trigger] self.links@[a]).id
                        == orig.links@[a].id,
                forall|a: int|
                    0 <= a < self.links@.len() && a != idx ==> (
                    #[trigger] self.links@[a]).blooms.forwarded_request@
                        == orig.links@[a].blooms.forwarded_request@,
                forall|a: int|
                    (j <= a < self.links@.len() && a != idx) ==> (
                    #[trigger] self.links@[a]).blooms.pending_request@
                        == orig.links@[a].blooms.pending_request@,
                forall|a: int|
                    0 <= a < j && a != idx ==> spec_pit_after(
                        orig.links@,
                        a,
                        *hbfi,
                        orig.threshold,
                        (#[trigger] self.links@[a]).blooms.pending_request@,
                    ),
            decreases self.links@.len() - j,
        {
            if j != idx {
                let ghost pre = *self;
                let pct = self.links[j].blooms.pending_request.contains(hbfi);
                proof {
                    assert(self.links@[j as int].blooms.pending_request@
                        == orig.links@[j as int].blooms.pending_request@);
                }
                if pct > self.threshold {
                    let ghost oldpit = self.links@[j as int].blooms.pending_request@;
                    let pit = pit_mut(&mut self.links, j);
                    pit.delete(hbfi);
                    proof {
                        assert(oldpit == orig.links@[j as int].blooms.pending_request@);
                        assert(self.links@[j as int].id == pre.links@[j as int].id);
                        assert(self.links@[j as int].blooms.forwarded_request@
                            == pre.links@[j as int].blooms.forwarded_request@);
                        assert forall|a: int|
                            0 <= a < self.links@.len() && a != j as int implies self.links@[a]
                            == pre.links@[a] by {}
                        assert(self.links@[j as int].blooms.pending_request@
                            == spec_without_marks(*hbfi, oldpit));
                        assert forall|a: int, b: int|
                            0 <= a < b < self.links@.len() implies self.links@[a].id
                            < self.links@[b].id by {
                            assert(pre.links@[a].id < pre.links@[b].id);
                        }
                        assert forall|a: int|
                            0 <= a < self.links@.len() implies (
                            #[trigger] self.links@[a]).blooms.wf() by {
                            assert(pre.links@[a].blooms.wf());
                        }
                        assert(spec_pit_hit(orig.links@, j as int, *hbfi, orig.threshold));
                        assert(spec_pit_after(
                            orig.links@,
                            j as int,
                            *hbfi,
                            orig.threshold,
                            self.links@[j as int].blooms.pending_request@,
                        ));
                    }
                } else {
                    proof {
                        assert(!spec_pit_hit(orig.links@, j as int, *hbfi, orig.threshold));
                        assert(spec_pit_after(
                            orig.links@,
                            j as int,
                            *hbfi,
                            orig.threshold,
                            self.links@[j as int].blooms.pending_request@,
                        ));
                    }
                }
            }
            j += 1;
        }
        proof {
            lemma_response_sound_from_witness(
                mid.links@,
                old(self).links@,
                ret.0@,
                ret.1@,
                *hbfi,
                old(self).threshold,
                ilp.link_id.id,
            );
            assert(spec_response_forwards_complete(
                old(self).links@,
                ret.0@,
                *hbfi,
                old(self).threshold,
                ilp.link_id.id,
            )) by {
                reveal(spec_response_forwards_complete);
                assert forall|j: int|
                    0 <= j < orig.links@.len() && (#[trigger] orig.links@[j]).id
                        != ilp.link_id.id && spec_pit_hit(orig.links@, j, *hbfi, orig.threshold)
                    implies exists|k: int|
                    0 <= k < ret.0@.len() && (#[trigger] ret.0@[k]).link_id.id
                        == orig.links@[j].id by {
                    assert(spec_selected(
                        mid.links@,
                        j,
                        *hbfi,
                        mid.threshold,
                        ilp.link_id.id,
                        true,
                        false,
                    ));
                    let k0 = choose|k0: int|
                        0 <= k0 < ret.0@.len() && ret.0@[k0].link_id.id == mid.links@[j].id;
                    assert(mid.links@[j].id == orig.links@[j].id);
                    assert(ret.0@[k0].link_id.id == orig.links@[j].id);
                }
            }
        }
        ret.0
    }
}

/// Law: two link lists with the same ids and filters select the same
/// forwards for a name.
proof fn lemma_same_selection(s1: Seq<LinkEntry>, s2: Seq<LinkEntry>, h: HBFI, t: u8)
    requires
        s1.len() == s2.len(),
        forall|j: int| 0 <= j < s1.len() ==> (#[trigger] s1[j]).id == s2[j].id,
        forall|j: int|
            0 <= j < s1.len() ==> (#[trigger] s1[j]).blooms.forwarded_request@
                == s2[j].blooms.forwarded_request@,
    ensures
        forall|j: int|
            0 <= j < s1.len() ==> (#[trigger] spec_fib_hit(s1, j, h, t)) == spec_fib_hit(
                s2,
                j,
                h,
                t,
            ),
        forall|arriving: u64|
            spec_any_fib_hit(s1, h, t, arriving) == #[trigger] spec_any_fib_hit(
                s2,
                h,
                t,
                arriving,
            ),
        forall|j: int, arriving: u64, bc: bool|
            0 <= j < s1.len() ==> (#[trigger] spec_selected(s1, j, h, t, arriving, false, bc))
                == spec_selected(s2, j, h, t, arriving, false, bc),
{
    assert forall|j: int|
        0 <= j < s1.len() implies (#[trigger] spec_fib_hit(s1, j, h, t)) == spec_fib_hit(
        s2,
        j,
        h,
        t,
    ) by {
        assert(s1[j].blooms.forwarded_request@ == s2[j].blooms.forwarded_request@);
    }
    assert forall|j: int, arriving: u64, bc: bool|
        0 <= j < s1.len() implies (#[trigger] spec_selected(s1, j, h, t, arriving, false, bc))
        == spec_selected(s2, j, h, t, arriving, false, bc) by {
        assert(s1[j].id == s2[j].id);
        assert(spec_fib_hit(s1, j, h, t) == spec_fib_hit(s2, j, h, t));
    }
    assert forall|arriving: u64|
        spec_any_fib_hit(s1, h, t, arriving) == #[trigger] spec_any_fib_hit(
        s2,
        h,
        t,
        arriving,
    ) by {
        if spec_any_fib_hit(s1, h, t, arriving) {
            let j = choose|j: int|
                0 <= j < s1.len() && s1[j].id != arriving && spec_fib_hit(s1, j, h, t);
            assert(s2[j].id != arriving && spec_fib_hit(s2, j, h, t));
        }
        if spec_any_fib_hit(s2, h, t, arriving) {
            let j = choose|j: int|
                0 <= j < s2.len() && s2[j].id != arriving && spec_fib_hit(s2, j, h, t);
            assert(s1[j].id != arriving && spec_fib_hit(s1, j, h, t));
        }
    }
}

/// Law: forwards named by a witness list over one link list are sound over
/// another list with the same ids and forwarding filters.
proof fn lemma_request_sound_from_witness(
    s1: Seq<LinkEntry>,
    s2: Seq<LinkEntry>,
    out: Seq<InterLinkPacket>,
    src: Seq<int>,
    h: HBFI,
    t: u8,
    arriving: u64,
    bcast: bool,
)
    requires
        s1.len() == s2.len(),
        forall|j: int| 0 <= j < s1.len() ==> (#[trigger] s2[j]).id == s1[j].id,
        forall|j: int|
            0 <= j < s1.len() ==> (#[trigger] s2[j]).blooms.forwarded_request@
                == s1[j].blooms.forwarded_request@,
        src.len() == out.len(),
        forall|k: int|
            0 <= k < out.len() ==> 0 <= (#[trigger] src[k]) < s1.len() && spec_selected(
                s1,
                src[k],
                h,
                t,
                arriving,
                false,
                bcast,
            ) && s1[src[k]].id == out[k].link_id.id,
    ensures
        spec_request_forwards_sound(s2, out, h, t, arriving, bcast),
{
    reveal(spec_request_forwards_sound);
    assert forall|k: int|
        0 <= k < out.len() implies #[trigger] spec_request_forward_ok(
        s2,
        out,
        h,
        t,
        arriving,
        bcast,
        k,
    ) by {
        let j0 = src[k];
        assert(spec_selected(s1, j0, h, t, arriving, false, bcast));
        assert(s2[j0].id == s1[j0].id);
        assert(s2[j0].blooms.forwarded_request@ == s1[j0].blooms.forwarded_request@);
        assert(spec_selected(s2, j0, h, t, arriving, false, bcast));
        assert(s2[j0].id == out[k].link_id.id);
    }
}

/// Law: forwards named by a witness list over one link list go only to
/// interested links of another list with the same ids and pending filters.
proof fn lemma_response_sound_from_witness(
    s1: Seq<LinkEntry>,
    s2: Seq<LinkEntry>,
    out: Seq<InterLinkPacket>,
    src: Seq<int>,
    h: HBFI,
    t: u8,
    arriving: u64,
)
    requires
        s1.len() == s2.len(),
        forall|j: int| 0 <= j < s1.len() ==> (#[trigger] s2[j]).id == s1[j].id,
        forall|j: int|
            0 <= j < s1.len() ==> (#[trigger] s2[j]).blooms.pending_request@
                == s1[j].blooms.pending_request@,
        src.len() == out.len(),
        forall|k: int|
            0 <= k < out.len() ==> 0 <= (#[trigger] src[k]) < s1.len() && spec_selected(
                s1,
                src[k],
                h,
                t,
                arriving,
                true,
                false,
            ) && s1[src[k]].id == out[k].link_id.id,
    ensures
        spec_response_forwards_sound(s2, out, h, t, arriving),
{
    reveal(spec_response_forwards_sound);
    assert forall|k: int|
        0 <= k < out.len() implies #[trigger] spec_response_forward_ok(
        s2,
        out,
        h,
        t,
        arriving,
        k,
    ) by {
        let j0 = src[k];
        assert(spec_selected(s1, j0, h, t, arriving, true, false));
        assert(s1[j0].id != arriving && spec_pit_hit(s1, j0, h, t));
        assert(s2[j0].id == s1[j0].id);
        assert(s2[j0].blooms.pending_request@ == s1[j0].blooms.pending_request@);
        assert(spec_pit_hit(s2, j0, h, t));
        assert(s2[j0].id == out[k].link_id.id);
        assert(spec_response_forward_ok(s2, out, h, t, arriving, k));
    }
}

/// Law: a name whose every mark stands in a filter scores the full hundred,
/// which exceeds any lawful threshold — the filter's owner is served.
pub proof fn lemma_recorded_interest_matches(h: HBFI, bits: Seq<bool>, threshold: u8)
    requires
        bits.len() == BLOOM_FILTER_LENGTH,
        forall|i: int| 0 <= i < BLOOM_FILTER_LENGTH ==> (spec_marks(h, i) ==> bits[i]),
        threshold < 100,
    ensures
        spec_hits(h, bits) * 100 / 24 > threshold,
{
    crate::bloom::lemma_inserted_is_contained(h, bits);
}

} // verus!
