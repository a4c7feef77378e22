//! The gossip wire format and the announcement table.
//!
//! Gossip messages carry a type, the sender's peer identifier, a content
//! identifier, and the sender's signature over the meaningful fields. The
//! byte encoding round-trips losslessly. The announcement table records
//! which peers are known to hold which content; its entries are advisory
//! only — retrieval verifies the payload.

use vstd::prelude::*;

verus! {

/// The three gossip message types: announcing locally stored content,
/// querying for content after a local miss, and answering a query directly
/// to the querier.
pub enum MessageKind {
    Announce,
    Query,
    QueryResponse,
}

/// What one gossip message is, field by field.
pub ghost struct MessageModel {
    pub kind: MessageKind,
    pub sender: Seq<u8>,
    pub id: Seq<u8>,
    pub sig: Seq<u8>,
}

/// A gossip message: type, sender peer identifier, content identifier, and
/// the sender's signature over the other three fields.
pub struct GossipMessage {
    pub kind: MessageKind,
    pub sender: Vec<u8>,
    pub id: Vec<u8>,
    pub sig: Vec<u8>,
}

impl View for GossipMessage {
    type V = MessageModel;

    open spec fn view(&self) -> MessageModel {
        MessageModel { kind: self.kind, sender: self.sender@, id: self.id@, sig: self.sig@ }
    }
}

/// The wire tag of each message type.
pub open spec fn kind_tag(k: MessageKind) -> u8 {
    match k {
        MessageKind::Announce => 1,
        MessageKind::Query => 2,
        MessageKind::QueryResponse => 3,
    }
}

/// The message type a wire tag denotes, if any.
pub open spec fn tag_kind(t: u8) -> Option<MessageKind> {
    if t == 1 {
        Some(MessageKind::Announce)
    } else if t == 2 {
        Some(MessageKind::Query)
    } else if t == 3 {
        Some(MessageKind::QueryResponse)
    } else {
        None
    }
}

/// A well-formed message carries full-length identifiers and a signature
/// whose length fits the two-byte length field.
pub open spec fn wf_message(m: MessageModel) -> bool {
    &&& m.sender.len() == 32
    &&& m.id.len() == 32
    &&& m.sig.len() < 65536
}

/// The bytes the sender signs: every semantically meaningful field — the
/// type tag, the sender identifier, and the content identifier.
pub open spec fn spec_signed_part(m: MessageModel) -> Seq<u8> {
    seq![kind_tag(m.kind)] + m.sender + m.id
}

/// The wire encoding: tag, sender, content identifier, two-byte big-endian
/// signature length, signature.
pub open spec fn spec_encode(m: MessageModel) -> Seq<u8>
    recommends
        wf_message(m),
{
    seq![kind_tag(m.kind)] + m.sender + m.id + seq![
        (m.sig.len() / 256) as u8,
        (m.sig.len() % 256) as u8,
    ] + m.sig
}

/// The message a byte sequence encodes, if it is a well-formed encoding.
pub open spec fn spec_decode(s: Seq<u8>) -> Option<MessageModel> {
    if s.len() < 67 {
        None
    } else {
        match tag_kind(s[0]) {
            None => None,
            Some(kind) => {
                let siglen = s[65] * 256 + s[66];
                if s.len() != 67 + siglen {
                    None
                } else {
                    Some(
                        (MessageModel {
                            kind,
                            sender: s.subrange(1, 33),
                            id: s.subrange(33, 65),
                            sig: s.skip(67),
                        }),
                    )
                }
            },
        }
    }
}

impl GossipMessage {
    /// Whether the message is well-formed.
    pub open spec fn wf(&self) -> bool {
        wf_message(self@)
    }

    /// Builds an unsigned message; the signature is attached once the owner
    /// of the sender identity has signed the meaningful fields.
    pub fn new(kind: MessageKind, sender: Vec<u8>, id: Vec<u8>) -> (r: GossipMessage)
        requires
            sender@.len() == 32,
            id@.len() == 32,
        ensures
            r@ == (MessageModel { kind, sender: sender@, id: id@, sig: Seq::<u8>::empty() }),
            r.wf(),
    {
        let r = GossipMessage { kind, sender, id, sig: Vec::new() };
        proof {
            assert(r.sig@ =~= Seq::<u8>::empty());
        }
        r
    }

    /// Attaches the sender's signature.
    pub fn set_signature(&mut self, sig: Vec<u8>)
        requires
            sig@.len() < 65536,
        ensures
            final(self)@ == (MessageModel {
                kind: old(self)@.kind,
                sender: old(self)@.sender,
                id: old(self)@.id,
                sig: sig@,
            }),
    {
        self.sig = sig;
    }

    /// The bytes the signature must cover.
    pub fn signed_part(&self) -> (r: Vec<u8>)
        ensures
            r@ == spec_signed_part(self@),
    {
        let mut r: Vec<u8> = Vec::new();
        let tag: u8 = match self.kind {
            MessageKind::Announce => 1,
            MessageKind::Query => 2,
            MessageKind::QueryResponse => 3,
        };
        r.push(tag);
        push_all(&mut r, self.sender.as_slice());
        push_all(&mut r, self.id.as_slice());
        proof {
            assert(r@ =~= spec_signed_part(self@));
        }
        r
    }

    /// Encodes the message for the wire.
    pub fn encode(&self) -> (r: Vec<u8>)
        requires
            self.wf(),
        ensures
            r@ == spec_encode(self@),
    {
        let mut r: Vec<u8> = Vec::new();
        let tag: u8 = match self.kind {
            MessageKind::Announce => 1,
            MessageKind::Query => 2,
            MessageKind::QueryResponse => 3,
        };
        r.push(tag);
        push_all(&mut r, self.sender.as_slice());
        push_all(&mut r, self.id.as_slice());
        let siglen: usize = self.sig.len();
        r.push((siglen / 256) as u8);
        r.push((siglen % 256) as u8);
        push_all(&mut r, self.sig.as_slice());
        proof {
            assert(r@ =~= spec_encode(self@));
        }
        r
    }

    /// Decodes a wire message. Returns `None` exactly when the bytes are not
    /// a well-formed encoding: too short, an unknown tag, or a length that
    /// does not match the signature length field.
    pub fn decode(bytes: &[u8]) -> (r: Option<GossipMessage>)
        ensures
            match r {
                Some(m) => spec_decode(bytes@) == Some(m@) && m.wf(),
                None => spec_decode(bytes@) is None,
            },
    {
        if bytes.len() < 67 {
            return None;
        }
        let kind = match bytes[0] {
            1u8 => MessageKind::Announce,
            2u8 => MessageKind::Query,
            3u8 => MessageKind::QueryResponse,
            _ => {
                return None;
            },
        };
        let siglen: usize = (bytes[65] as usize) * 256 + (bytes[66] as usize);
        if bytes.len() != 67 + siglen {
            return None;
        }
        let sender = copy_range(bytes, 1, 33);
        let id = copy_range(bytes, 33, 65);
        let sig = copy_range(bytes, 67, bytes.len());
        let m = GossipMessage { kind, sender, id, sig };
        proof {
            assert(m.sig@ =~= bytes@.skip(67));
            assert(spec_decode(bytes@) == Some(m@));
        }
        Some(m)
    }
}

/// The wire format is lossless: decoding the encoding of any well-formed
/// message yields that message back.
pub proof fn lemma_wire_round_trip(m: MessageModel)
    requires
        wf_message(m),
    ensures
        spec_decode(spec_encode(m)) == Some(m),
{
    let e = spec_encode(m);
    assert(e.len() == 67 + m.sig.len());
    assert(e[0] == kind_tag(m.kind));
    assert(tag_kind(kind_tag(m.kind)) == Some(m.kind));
    assert(e[65] == (m.sig.len() / 256) as u8);
    assert(e[66] == (m.sig.len() % 256) as u8);
    assert(m.sig.len() / 256 < 256);
    assert((m.sig.len() / 256) * 256 + (m.sig.len() % 256) == m.sig.len()) by (nonlinear_arith);
    assert(e.subrange(1, 33) =~= m.sender);
    assert(e.subrange(33, 65) =~= m.id);
    assert(e.skip(67) =~= m.sig);
}

/// Appends a byte slice to a vector.
fn push_all(dst: &mut Vec<u8>, src: &[u8])
    ensures
        final(dst)@ == old(dst)@ + src@,
{
    let n: usize = src.len();
    for i in 0..n
        invariant
            n == src@.len(),
            dst@ =~= old(dst)@ + src@.take(i as int),
    {
        dst.push(src[i]);
        assert(dst@ =~= old(dst)@ + src@.take(i as int + 1));
    }
    assert(src@.take(n as int) =~= src@);
}

/// Copies a byte range out of a slice.
fn copy_range(src: &[u8], start: usize, end: usize) -> (r: Vec<u8>)
    requires
        start <= end <= src@.len(),
    ensures
        r@ == src@.subrange(start as int, end as int),
{
    let mut r: Vec<u8> = Vec::new();
    let mut i: usize = start;
    while i < end
        invariant
            start <= i <= end <= src@.len(),
            r@ =~= src@.subrange(start as int, i as int),
        decreases end - i,
    {
        r.push(src[i]);
        assert(r@ =~= src@.subrange(start as int, i as int + 1));
        i = i + 1;
    }
    r
}

/// An advisory entry: a peer announced that it holds a content identifier.
pub struct AnnouncementRecord {
    pub id: Vec<u8>,
    pub peer: Vec<u8>,
}

impl View for AnnouncementRecord {
    type V = (Seq<u8>, Seq<u8>);

    open spec fn view(&self) -> (Seq<u8>, Seq<u8>) {
        (self.id@, self.peer@)
    }
}

/// The peers recorded as holding an identifier.
pub open spec fn spec_holders(s: Seq<(Seq<u8>, Seq<u8>)>, id: Seq<u8>) -> Seq<Seq<u8>>
    decreases s.len(),
{
    if s.len() == 0 {
        Seq::empty()
    } else if s.first().0 == id {
        seq![s.first().1] + spec_holders(s.drop_first(), id)
    } else {
        spec_holders(s.drop_first(), id)
    }
}

/// What recording an announcement does to the table: nothing if the pair is
/// already present, otherwise one new entry appended.
pub open spec fn spec_record(s: Seq<(Seq<u8>, Seq<u8>)>, id: Seq<u8>, peer: Seq<u8>) -> Seq<
    (Seq<u8>, Seq<u8>),
> {
    if s.contains((id, peer)) {
        s
    } else {
        s.push((id, peer))
    }
}

/// The table mapping content identifiers to the peers that announced them.
pub struct AnnounceTable {
    entries: Vec<AnnouncementRecord>,
}

impl View for AnnounceTable {
    type V = Seq<(Seq<u8>, Seq<u8>)>;

    closed spec fn view(&self) -> Seq<(Seq<u8>, Seq<u8>)> {
        self.entries@.map_values(|r: AnnouncementRecord| r@)
    }
}

impl AnnounceTable {
    /// An empty table.
    pub fn new() -> (r: AnnounceTable)
        ensures
            r@ == Seq::<(Seq<u8>, Seq<u8>)>::empty(),
    {
        let r = AnnounceTable { entries: Vec::new() };
        proof {
            assert(r@ =~= Seq::<(Seq<u8>, Seq<u8>)>::empty());
        }
        r
    }

    /// Records that a peer announced an identifier; recording the same pair
    /// again changes nothing.
    pub fn record(&mut self, id: &[u8], peer: &[u8])
        ensures
            final(self)@ == spec_record(old(self)@, id@, peer@),
    {
        let n: usize = self.entries.len();
        let mut i: usize = 0;
        while i < n
            invariant
                n == self@.len(),
                n == self.entries@.len(),
                i <= n,
                forall|j: int| 0 <= j < i ==> #[trigger] self@[j] != (id@, peer@),
            decreases n - i,
        {
            if crate::hex::bytes_eq(self.entries[i].id.as_slice(), id) && crate::hex::bytes_eq(
                self.entries[i].peer.as_slice(),
                peer,
            ) {
                assert(self@[i as int] == (id@, peer@));
                assert(self@.contains((id@, peer@)));
                return ;
            }
            i = i + 1;
        }
        assert(!self@.contains((id@, peer@)));
        let ghost pre = self@;
        let rec = AnnouncementRecord {
            id: crate::hex::copy_bytes(id),
            peer: crate::hex::copy_bytes(peer),
        };
        self.entries.push(rec);
        proof {
            assert(self@ =~= pre.push((id@, peer@)));
        }
    }

    /// The peers recorded as holding an identifier: the candidates a fetch
    /// may try, each still to be verified at retrieval time.
    pub fn holders(&self, id: &[u8]) -> (r: Vec<Vec<u8>>)
        ensures
            r@.map_values(|p: Vec<u8>| p@) == spec_holders(self@, id@),
    {
        let n: usize = self.entries.len();
        let mut r: Vec<Vec<u8>> = Vec::new();
        let mut i: usize = 0;
        assert(self@.skip(0) =~= self@);
        while i < n
            invariant
                n == self@.len(),
                n == self.entries@.len(),
                i <= n,
                spec_holders(self@, id@) =~= r@.map_values(|p: Vec<u8>| p@) + spec_holders(
                    self@.skip(i as int),
                    id@,
                ),
            decreases n - i,
        {
            proof {
                assert(self@.skip(i as int).first() == self@[i as int]);
                assert(self@.skip(i as int).drop_first() =~= self@.skip(i as int + 1));
            }
            if crate::hex::bytes_eq(self.entries[i].id.as_slice(), id) {
                let ghost pre = r@;
                let p = crate::hex::copy_bytes(self.entries[i].peer.as_slice());
                r.push(p);
                proof {
                    assert(r@.map_values(|p: Vec<u8>| p@) =~= pre.map_values(|p: Vec<u8>| p@).push(
                        self@[i as int].1,
                    ));
                }
            }
            i = i + 1;
        }
        assert(self@.skip(n as int) =~= Seq::<(Seq<u8>, Seq<u8>)>::empty());
        assert(spec_holders(self@.skip(n as int), id@) =~= Seq::<Seq<u8>>::empty());
        assert(r@.map_values(|p: Vec<u8>| p@) =~= spec_holders(self@, id@));
        r
    }
}

} // verus!
