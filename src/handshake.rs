use vstd::prelude::*;

use crate::frame::{
    decode, encode, encoding, lemma_decode_encode, no_separator, parse, Frame, FrameModel,
};
use crate::sodium::{Nonce, PublicKey, PUBLIC_KEY_BYTES};

verus! {

/// Where a peer was seen and the public key it announced.
pub struct PeerInfo {
    pub address: String,
    pub public_key: PublicKey,
}

/// A peer as an address and a key.
pub type PeerModel = (Seq<char>, Seq<u8>);

impl View for PeerInfo {
    type V = PeerModel;

    open spec fn view(&self) -> PeerModel {
        (self.address@, self.public_key@)
    }
}

/// The model of an optional peer.
pub open spec fn peer_view(p: Option<PeerInfo>) -> Option<PeerModel> {
    match p {
        Some(q) => Some(q@),
        None => None,
    }
}

/// Whether the peer of a session is known yet.
#[derive(Clone, Copy, Debug, PartialEq, Eq, Structural)]
pub enum HandshakeState {
    AwaitingPeer,
    PeerKnown,
}

/// What the receiving side makes of one datagram.
pub enum Inbound {
    /// Nothing to do: the endpoint's own datagram, a malformed payload, a
    /// frame for another recipient, or a repeated discovery.
    Dropped,
    /// The peer has just been discovered: hand it to the sending side.
    Discovered(PeerInfo),
    /// A message for this endpoint: open `ciphertext` with `nonce`, the peer's
    /// key and the local secret key.
    Sealed { peer: PublicKey, nonce: Nonce, ciphertext: Vec<u8> },
}

/// The model of what the receiving side makes of one datagram.
pub ghost enum InboundModel {
    Dropped,
    Discovered { peer: PeerModel },
    Sealed { peer: Seq<u8>, nonce: Seq<u8>, ciphertext: Seq<u8> },
}

impl View for Inbound {
    type V = InboundModel;

    open spec fn view(&self) -> InboundModel {
        match self {
            Inbound::Dropped => InboundModel::Dropped,
            Inbound::Discovered(p) => InboundModel::Discovered { peer: p@ },
            Inbound::Sealed { peer, nonce, ciphertext } => InboundModel::Sealed {
                peer: peer@,
                nonce: nonce@,
                ciphertext: ciphertext@,
            },
        }
    }
}

/// The source key of a frame.
pub open spec fn frame_src(f: FrameModel) -> Seq<u8> {
    match f {
        FrameModel::Announce { src } => src,
        FrameModel::Message { src, .. } => src,
    }
}

/// The next state and the outcome when a datagram with `payload` arrives
/// from `source` at an endpoint bound to `local_address` with `local_key`.
pub open spec fn inbound(
    state: HandshakeState,
    local_address: Seq<char>,
    local_key: Seq<u8>,
    source: Seq<char>,
    payload: Seq<u8>,
) -> (HandshakeState, InboundModel) {
    if source == local_address {
        (state, InboundModel::Dropped)
    } else {
        match parse(payload) {
            Err(_) => (state, InboundModel::Dropped),
            Ok(f) => match state {
                HandshakeState::AwaitingPeer => (
                    HandshakeState::PeerKnown,
                    InboundModel::Discovered { peer: (source, frame_src(f)) },
                ),
                HandshakeState::PeerKnown => match f {
                    FrameModel::Message { src, dst, nonce, ciphertext } => if dst == local_key {
                        (state, InboundModel::Sealed { peer: src, nonce, ciphertext })
                    } else {
                        (state, InboundModel::Dropped)
                    },
                    FrameModel::Announce { .. } => (state, InboundModel::Dropped),
                },
            },
        }
    }
}

/// The receiving side of an endpoint: turns datagrams into a discovered peer,
/// exactly once, and then into messages to open.
pub struct Receiver {
    pub local_address: String,
    pub local_key: PublicKey,
    pub state: HandshakeState,
}

impl Receiver {
    pub fn new(local_address: String, local_key: PublicKey) -> (r: Receiver)
        ensures
            r.local_address@ == local_address@,
            r.local_key@ == local_key@,
            r.state == HandshakeState::AwaitingPeer,
    {
        Receiver { local_address, local_key, state: HandshakeState::AwaitingPeer }
    }

    /// Handles one datagram with `payload` that arrived from `source`.
    pub fn on_datagram(&mut self, source: &String, payload: &[u8]) -> (r: Inbound)
        ensures
            (final(self).state, r@) == inbound(
                old(self).state,
                old(self).local_address@,
                old(self).local_key@,
                source@,
                payload@,
            ),
            final(self).local_address@ == old(self).local_address@,
            final(self).local_key@ == old(self).local_key@,
    {
        if *source == self.local_address {
            return Inbound::Dropped;
        }
        let frame = match decode(payload) {
            Ok(f) => f,
            Err(_) => {
                return Inbound::Dropped;
            },
        };
        match self.state {
            HandshakeState::AwaitingPeer => {
                self.state = HandshakeState::PeerKnown;
                let key = match &frame {
                    Frame::Announce { src } => src.duplicate(),
                    Frame::Message { src, .. } => src.duplicate(),
                };
                Inbound::Discovered(PeerInfo { address: source.clone(), public_key: key })
            },
            HandshakeState::PeerKnown => match frame {
                Frame::Message { src, dst, nonce, ciphertext } => {
                    if dst.same_as(&self.local_key) {
                        Inbound::Sealed { peer: src, nonce, ciphertext }
                    } else {
                        Inbound::Dropped
                    }
                },
                Frame::Announce { .. } => Inbound::Dropped,
            },
        }
    }
}

/// The payload that announces `key`.
pub open spec fn announce_payload(key: Seq<u8>) -> Seq<u8> {
    encoding(FrameModel::Announce { src: key })
}

/// A datagram to send.
pub struct Datagram {
    pub address: String,
    pub payload: Vec<u8>,
}

/// What the sending side does with a line of input.
pub enum Outgoing {
    /// The peer is not known yet: send this announce instead of the line.
    Announce(Datagram),
    /// Seal the line for `peer_key` and send it to `address`.
    Seal { address: String, peer_key: PublicKey },
}

/// The sending side of an endpoint.
pub struct Sender {
    pub rendezvous: String,
    pub local_key: PublicKey,
    pub peer: Option<PeerInfo>,
}

/// The peer that the sending side holds after a handoff: the first one wins.
pub open spec fn adopted(peer: Option<PeerModel>, handoff: Option<PeerModel>) -> Option<PeerModel> {
    if peer is None {
        handoff
    } else {
        peer
    }
}

impl Sender {
    pub fn new(rendezvous: String, local_key: PublicKey) -> (r: Sender)
        ensures
            r.rendezvous@ == rendezvous@,
            r.local_key@ == local_key@,
            r.peer is None,
    {
        Sender { rendezvous, local_key, peer: None }
    }

    /// Takes in what the handoff channel held, if anything. A peer is adopted
    /// only while none is known; on adopting one, the reply announce to it
    /// is returned.
    pub fn adopt(&mut self, handoff: Option<PeerInfo>) -> (r: Option<Datagram>)
        ensures
            peer_view(final(self).peer) == adopted(peer_view(old(self).peer), peer_view(handoff)),
            final(self).rendezvous@ == old(self).rendezvous@,
            final(self).local_key@ == old(self).local_key@,
            r is Some <==> (old(self).peer is None && handoff is Some),
            r is Some ==> r->Some_0.address@ == handoff->Some_0.address@
                && r->Some_0.payload@ == announce_payload(old(self).local_key@),
    {
        if self.peer.is_some() {
            return None;
        }
        match handoff {
            None => None,
            Some(p) => {
                let address = p.address.clone();
                self.peer = Some(p);
                let payload = encode(&Frame::Announce { src: self.local_key.duplicate() });
                Some(Datagram { address, payload })
            },
        }
    }

    /// What to do with one line of input.
    pub fn on_line(&self) -> (r: Outgoing)
        ensures
            self.peer is None ==> r is Announce && r->Announce_0.address@ == self.rendezvous@
                && r->Announce_0.payload@ == announce_payload(self.local_key@),
            self.peer is Some ==> r is Seal && r->Seal_address@ == self.peer->Some_0.address@
                && r->Seal_peer_key@ == self.peer->Some_0.public_key@,
    {
        match &self.peer {
            None => {
                let payload = encode(&Frame::Announce { src: self.local_key.duplicate() });
                Outgoing::Announce(Datagram { address: self.rendezvous.clone(), payload })
            },
            Some(p) => Outgoing::Seal {
                address: p.address.clone(),
                peer_key: p.public_key.duplicate(),
            },
        }
    }

    /// The payload that carries `ciphertext`, sealed with `nonce`, to the
    /// known peer; `None` while no peer is known.
    pub fn message_payload(&self, nonce: Nonce, ciphertext: Vec<u8>) -> (r: Option<Vec<u8>>)
        ensures
            r is Some <==> self.peer is Some,
            r is Some ==> r->Some_0@ == encoding(
                FrameModel::Message {
                    src: self.local_key@,
                    dst: self.peer->Some_0.public_key@,
                    nonce: nonce@,
                    ciphertext: ciphertext@,
                },
            ),
    {
        match &self.peer {
            None => None,
            Some(p) => {
                let frame = Frame::Message {
                    src: self.local_key.duplicate(),
                    dst: p.public_key.duplicate(),
                    nonce,
                    ciphertext,
                };
                Some(encode(&frame))
            },
        }
    }
}

/// The peer that an inbound outcome hands over, if any.
pub open spec fn discovered(e: InboundModel) -> Option<PeerModel> {
    match e {
        InboundModel::Discovered { peer } => Some(peer),
        _ => None,
    }
}

/// Two endpoints at distinct addresses, each still awaiting its peer,
/// converge: B receives A's announce from A's address and learns A; B's
/// sending side adopts A and replies with its own announce to A's address;
/// A receives that reply from B's address and learns B.
pub proof fn lemma_handshake_converges(a: PeerModel, b: PeerModel)
    requires
        a.0 != b.0,
        a.1.len() == PUBLIC_KEY_BYTES,
        b.1.len() == PUBLIC_KEY_BYTES,
        no_separator(a.1),
        no_separator(b.1),
    ensures
        ({
            let (b_state, b_event) = inbound(
                HandshakeState::AwaitingPeer,
                b.0,
                b.1,
                a.0,
                announce_payload(a.1),
            );
            let (a_state, a_event) = inbound(
                HandshakeState::AwaitingPeer,
                a.0,
                a.1,
                b.0,
                announce_payload(b.1),
            );
            &&& b_state == HandshakeState::PeerKnown
            &&& adopted(None, discovered(b_event)) == Some(a)
            &&& a_state == HandshakeState::PeerKnown
            &&& adopted(None, discovered(a_event)) == Some(b)
        }),
{
    lemma_decode_encode(FrameModel::Announce { src: a.1 });
    lemma_decode_encode(FrameModel::Announce { src: b.1 });
}

} // verus!
