use vstd::prelude::*;
use crate::narrow_waist::NarrowWaistPacket;

verus! {

/// A transport-level return address. The wire tells the variants apart by
/// length alone.
#[derive(Clone, Copy, Debug)]
pub enum ReplyTo {
    Mpsc,
    UdpIp4 { addr: [u8; 4], port: u16 },
    UdpIp6 { addr: [u8; 16], port: u16 },
    Rf(u64),
}

impl ReplyTo {
    /// Whether two return addresses are the same.
    pub open spec fn same_as(&self, other: &ReplyTo) -> bool {
        match (*self, *other) {
            (ReplyTo::Mpsc, ReplyTo::Mpsc) => true,
            (
                ReplyTo::UdpIp4 { addr: a1, port: p1 },
                ReplyTo::UdpIp4 { addr: a2, port: p2 },
            ) => a1@ == a2@ && p1 == p2,
            (
                ReplyTo::UdpIp6 { addr: a1, port: p1 },
                ReplyTo::UdpIp6 { addr: a2, port: p2 },
            ) => a1@ == a2@ && p1 == p2,
            (ReplyTo::Rf(h1), ReplyTo::Rf(h2)) => h1 == h2,
            _ => false,
        }
    }
}

/// Names one link a router is peered over.
#[derive(Clone, Copy, Debug, PartialEq, Eq, Structural)]
pub struct LinkId {
    pub id: u64,
}

impl LinkId {
    /// A link identifier.
    pub fn new(id: u64) -> (r: LinkId)
        ensures
            r.id == id,
    {
        LinkId { id }
    }
}

/// What travels over one link: a narrow-waist packet and the address to
/// answer to.
#[derive(Clone, Copy, Debug)]
pub struct LinkPacket {
    pub reply_to: ReplyTo,
    pub narrow_waist: NarrowWaistPacket,
}

impl LinkPacket {
    /// Pairs a packet with its return address.
    pub fn new(reply_to: ReplyTo, narrow_waist: NarrowWaistPacket) -> (r: LinkPacket)
        ensures
            r.reply_to == reply_to,
            r.narrow_waist == narrow_waist,
    {
        LinkPacket { reply_to, narrow_waist }
    }

    /// The return address.
    pub fn reply_to(&self) -> (r: ReplyTo)
        ensures
            r == self.reply_to,
    {
        self.reply_to
    }

    /// The packet carried.
    pub fn narrow_waist(&self) -> (r: &NarrowWaistPacket)
        ensures
            r == &self.narrow_waist,
    {
        &self.narrow_waist
    }
}

/// The routing fabric's unit of exchange: a link packet together with the
/// link it arrived on or leaves by.
#[derive(Clone, Copy, Debug)]
pub struct InterLinkPacket {
    pub link_id: LinkId,
    pub link_packet: LinkPacket,
}

impl InterLinkPacket {
    /// Pairs a link packet with a link.
    pub fn new(link_id: LinkId, link_packet: LinkPacket) -> (r: InterLinkPacket)
        ensures
            r.link_id == link_id,
            r.link_packet == link_packet,
    {
        InterLinkPacket { link_id, link_packet }
    }

    /// The link this packet belongs to.
    pub fn link_id(&self) -> (r: LinkId)
        ensures
            r == self.link_id,
    {
        self.link_id
    }

    /// The packet carried.
    pub fn narrow_waist(&self) -> (r: &NarrowWaistPacket)
        ensures
            r == &self.link_packet.narrow_waist,
    {
        &self.link_packet.narrow_waist
    }
}

} // verus!
