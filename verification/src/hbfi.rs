use vstd::prelude::*;
use vstd::string::StringSliceAdditionalSpecFns;
use crate::bytes::extend_bytes;
use crate::errors::CopernicaError;
use crate::identity::PublicIdentity;
use crate::wire_ints::BFI;

verus! {

/// One entry of the Bloom-filter index of a byte string: a fold of the
/// bytes into sixteen bits, seeded by the entry's position.
pub open spec fn spec_bfi_word(bytes: Seq<u8>, seed: int) -> int
    decreases bytes.len(),
{
    if bytes.len() == 0 {
        seed % 65536
    } else {
        (spec_bfi_word(bytes.drop_last(), seed) * 31 + bytes.last()) % 65536
    }
}

/// Whether a Bloom-filter index is the index of the given byte string.
pub open spec fn spec_bfi(bytes: Seq<u8>, r: BFI) -> bool {
    forall|k: int| 0 <= k < 4 ==> r[k] == spec_bfi_word(bytes, k)
}

/// The Bloom-filter index of a byte string.
pub fn bfi_of_bytes(bytes: &Vec<u8>) -> (r: BFI)
    ensures
        spec_bfi(bytes@, r),
{
    let mut r: BFI = [0u16; 4];
    let mut k: usize = 0;
    while k < 4
        invariant
            k <= 4,
            forall|j: int| 0 <= j < k ==> r[j] == spec_bfi_word(bytes@, j),
        decreases 4 - k,
    {
        let mut h: u32 = k as u32;
        let mut i: usize = 0;
        proof {
            assert(bytes@.subrange(0, 0) =~= Seq::<u8>::empty());
        }
        while i < bytes.len()
            invariant
                i <= bytes@.len(),
                k < 4,
                h == spec_bfi_word(bytes@.subrange(0, i as int), k as int),
                h < 65536,
            decreases bytes@.len() - i,
        {
            h = (h * 31 + bytes[i] as u32) % 65536;
            proof {
                assert(bytes@.subrange(0, i + 1).drop_last() =~= bytes@.subrange(0, i as int));
                assert(bytes@.subrange(0, i + 1).last() == bytes@[i as int]);
            }
            i += 1;
        }
        proof {
            assert(bytes@.subrange(0, bytes@.len() as int) =~= bytes@);
        }
        r[k] = h as u16;
        k += 1;
    }
    r
}

/// The Bloom-filter index of a label string's bytes.
pub fn bfi(s: &str) -> (r: BFI)
    ensures
        spec_bfi(s.spec_bytes(), r),
{
    let b = s.as_bytes();
    let mut v: Vec<u8> = Vec::new();
    extend_bytes(&mut v, b);
    proof {
        assert(v@ =~= s.spec_bytes());
    }
    bfi_of_bytes(&v)
}

/// The Bloom-filter index of a public identity's wire bytes.
pub fn bfi_of_id(pid: &PublicIdentity) -> (r: BFI)
    ensures
        spec_bfi(pid.spec_bytes(), r),
{
    let mut v: Vec<u8> = Vec::new();
    extend_bytes(&mut v, &pid.sign_key);
    extend_bytes(&mut v, &pid.exch_key);
    extend_bytes(&mut v, &pid.chain_code);
    proof {
        assert(v@ =~= pid.spec_bytes());
    }
    bfi_of_bytes(&v)
}

/// The hierarchical Bloom-filter index: six labels, an offset, the
/// responder's public identity, and optionally the requester's. The
/// requester's presence selects the cypher-text wire layout.
#[derive(Clone, Copy, Debug)]
pub struct HBFI {
    pub response_pid: PublicIdentity,
    pub request_pid: Option<PublicIdentity>,
    pub res: BFI,
    pub req: BFI,
    pub app: BFI,
    pub m0d: BFI,
    pub fun: BFI,
    pub arg: BFI,
    pub ost: u64,
}

impl HBFI {
    /// Whether two HBFIs name the same information object.
    pub open spec fn same_as(&self, other: &HBFI) -> bool {
        &&& self.response_pid.same_as(&other.response_pid)
        &&& match (self.request_pid, other.request_pid) {
            (Some(a), Some(b)) => a.same_as(&b),
            (None, None) => true,
            _ => false,
        }
        &&& self.res@ == other.res@
        &&& self.req@ == other.req@
        &&& self.app@ == other.app@
        &&& self.m0d@ == other.m0d@
        &&& self.fun@ == other.fun@
        &&& self.arg@ == other.arg@
        &&& self.ost == other.ost
    }

    /// Builds a name from the identities and the four label strings; the
    /// offset starts at zero. Every input is accepted.
    pub fn new(
        response_pid: PublicIdentity,
        request_pid: Option<PublicIdentity>,
        app: &str,
        m0d: &str,
        fun: &str,
        arg: &str,
    ) -> (r: Result<HBFI, CopernicaError>)
        ensures
            r matches Ok(h) && h.response_pid.same_as(&response_pid) && (match (
                h.request_pid,
                request_pid,
            ) {
                (Some(a), Some(b)) => a.same_as(&b),
                (None, None) => true,
                _ => false,
            }) && spec_bfi(response_pid.spec_bytes(), h.res) && (match request_pid {
                Some(p) => spec_bfi(p.spec_bytes(), h.req),
                None => h.req@ =~= seq![0u16, 0u16, 0u16, 0u16],
            }) && spec_bfi(app.spec_bytes(), h.app) && spec_bfi(m0d.spec_bytes(), h.m0d)
                && spec_bfi(fun.spec_bytes(), h.fun) && spec_bfi(arg.spec_bytes(), h.arg)
                && h.ost == 0,
    {
        let res = bfi_of_id(&response_pid);
        let req = match &request_pid {
            Some(p) => bfi_of_id(p),
            None => [0u16; 4],
        };
        proof {
            if request_pid is None {
                assert(req@ =~= seq![0u16, 0u16, 0u16, 0u16]);
            }
        }
        Ok(
            HBFI {
                response_pid,
                request_pid,
                res,
                req,
                app: bfi(app),
                m0d: bfi(m0d),
                fun: bfi(fun),
                arg: bfi(arg),
                ost: 0,
            },
        )
    }

    /// The same name with another byte offset.
    pub fn offset(&self, ost: u64) -> (r: HBFI)
        ensures
            r.same_as(&HBFI { ost, ..*self }),
            r.ost == ost,
    {
        HBFI { ost, ..*self }
    }

    /// Compares two names field by field.
    pub fn eq_hbfi(&self, other: &HBFI) -> (r: bool)
        ensures
            r == self.same_as(other),
    {
        let ids_match = self.response_pid.eq_id(&other.response_pid) && (match (
            &self.request_pid,
            &other.request_pid,
        ) {
            (Some(a), Some(b)) => a.eq_id(b),
            (None, None) => true,
            _ => false,
        });
        let bfis_match = bfi_eq(&self.res, &other.res) && bfi_eq(&self.req, &other.req) && bfi_eq(
            &self.app,
            &other.app,
        ) && bfi_eq(&self.m0d, &other.m0d) && bfi_eq(&self.fun, &other.fun) && bfi_eq(
            &self.arg,
            &other.arg,
        );
        ids_match && bfis_match && self.ost == other.ost
    }
}

/// Whether two Bloom-filter indices hold the same entries.
pub fn bfi_eq(a: &BFI, b: &BFI) -> (r: bool)
    ensures
        r == (a@ == b@),
{
    let r = a[0] == b[0] && a[1] == b[1] && a[2] == b[2] && a[3] == b[3];
    proof {
        if r {
            assert(a@ =~= b@);
        }
    }
    r
}

} // verus!
