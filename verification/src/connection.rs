//! The framer: length-prefixed frames over a byte stream, one cipher lane
//! per direction, pending read and write buffers.
//!
//! The connection itself never touches a socket. Whatever reads the socket
//! feeds inbound bytes through `push_received` and drains `outgoing` to the
//! peer, acknowledging with `consume_sent`. Everything between those two
//! edges — framing, ciphering, catalog decode — is verified here.
//!
//! Every frame is `u32 length || u32 id || payload`, lengths big-endian and
//! counting the 8 header bytes. Headers travel in clear; payloads pass
//! through the cipher once it is installed.

use vstd::prelude::*;

use crate::codec::{be4, be4_val};
use crate::crypto::{dec_seq, enc_seq, lane_wf, CipherMode, LaneModel, XOrCipher};
use crate::error::ProtocolError;
use crate::packets::{
    catalog_direction, catalog_parse, packet_model_group, packet_model_id_of, packet_model_valid,
    packet_model_wire, register_all_packets, Packet, PacketDirection, PacketModel, PacketRegistry,
};
use crate::reader::Reader;

verus! {

/// Frames above this many bytes are rejected as malformed giants.
pub const PACKET_SIZE_CAP: usize = 64 * 1024 * 1024;

/// Decides per packet whether it is logged; this filter answers the same for
/// everything.
#[derive(Debug, Clone)]
pub struct SimplePacketDebugFilter {
    enabled: bool,
}

impl SimplePacketDebugFilter {
    /// Whether this filter logs.
    pub closed spec fn spec_enabled(&self) -> bool {
        self.enabled
    }

    pub fn logging_enabled() -> (r: SimplePacketDebugFilter)
        ensures
            r.spec_enabled(),
    {
        SimplePacketDebugFilter { enabled: true }
    }

    pub fn logging_disabled() -> (r: SimplePacketDebugFilter)
        ensures
            !r.spec_enabled(),
    {
        SimplePacketDebugFilter { enabled: false }
    }

    /// Logs everything or nothing, whatever the packet or direction.
    pub fn should_log(&self, is_send: bool, packet: &Packet) -> (r: bool)
        ensures
            r == self.spec_enabled(),
    {
        self.enabled
    }
}

/// Logs by model id: either only the listed groups (allow-list) or
/// everything but them (deny-list).
#[derive(Debug, Clone)]
pub struct ModelPacketDebugFilter {
    model_ids: Vec<u32>,
    whitelist: bool,
}

impl ModelPacketDebugFilter {
    /// The model ids this filter singles out.
    pub closed spec fn spec_model_ids(&self) -> Seq<u32> {
        self.model_ids@
    }

    /// True for an allow-list, false for a deny-list.
    pub closed spec fn spec_whitelist(&self) -> bool {
        self.whitelist
    }

    pub fn whitelist(model_ids: Vec<u32>) -> (r: ModelPacketDebugFilter)
        ensures
            r.spec_model_ids() == model_ids@,
            r.spec_whitelist(),
    {
        ModelPacketDebugFilter { model_ids, whitelist: true }
    }

    pub fn blacklist(model_ids: Vec<u32>) -> (r: ModelPacketDebugFilter)
        ensures
            r.spec_model_ids() == model_ids@,
            !r.spec_whitelist(),
    {
        ModelPacketDebugFilter { model_ids, whitelist: false }
    }

    /// Logs a packet exactly when its model id is listed (allow-list) or not
    /// listed (deny-list).
    pub fn should_log(&self, is_send: bool, packet: &Packet) -> (r: bool)
        ensures
            r == (self.spec_model_ids().contains(packet_model_group(packet.model()))
                == self.spec_whitelist()),
    {
        let group = packet.model_id();
        let mut i: usize = 0;
        while i < self.model_ids.len()
            invariant
                i <= self.model_ids@.len(),
                group == packet_model_group(packet.model()),
                forall|j: int| 0 <= j < i ==> self.model_ids@[j] != group,
            decreases self.model_ids@.len() - i,
        {
            if self.model_ids[i] == group {
                return self.whitelist;
            }
            i = i + 1;
        }
        !self.whitelist
    }
}

/// What one parsing step of the read buffer produced.
pub enum FrameStep {
    /// Not enough bytes for a whole frame yet.
    Pending,
    /// One frame was consumed and decoded.
    Decoded(Packet),
}

/// The cipher lanes as the connection's contracts see them: `None` while the
/// connection is still in the clear.
pub open spec fn lanes_wf(lanes: Option<(LaneModel, LaneModel)>) -> bool {
    match lanes {
        Some(p) => lane_wf(p.0) && lane_wf(p.1),
        None => true,
    }
}

/// Ciphers a payload on the encrypt lane; in the clear the payload passes
/// unchanged.
pub open spec fn cipher_send(lanes: Option<(LaneModel, LaneModel)>, payload: Seq<u8>) -> (Option<
    (LaneModel, LaneModel)
>, Seq<u8>) {
    match lanes {
        Some(p) => {
            let (l, out) = enc_seq(p.0, payload);
            (Some((l, p.1)), out)
        },
        None => (None, payload),
    }
}

/// Deciphers a payload on the decrypt lane; in the clear the payload passes
/// unchanged.
pub open spec fn cipher_recv(lanes: Option<(LaneModel, LaneModel)>, payload: Seq<u8>) -> (Option<
    (LaneModel, LaneModel)
>, Seq<u8>) {
    match lanes {
        Some(p) => {
            let (l, out) = dec_seq(p.1, payload);
            (Some((p.0, l)), out)
        },
        None => (None, payload),
    }
}

/// The decrypt half of the lanes, which alone decides what an inbound
/// payload deciphers to.
pub open spec fn dec_lane_of(lanes: Option<(LaneModel, LaneModel)>) -> Option<LaneModel> {
    match lanes {
        Some(p) => Some(p.1),
        None => None,
    }
}

/// The error one parsing step of a read buffer reports when it fails; false
/// for buffers that are still incomplete or parse cleanly.
pub open spec fn frame_parse_error(
    buf: Seq<u8>,
    lanes: Option<(LaneModel, LaneModel)>,
    registered: Seq<u32>,
    allow_unknown: bool,
    e: ProtocolError,
) -> bool {
    if buf.len() < 8 {
        false
    } else {
        let length = be4_val(buf) as int;
        let id = be4_val(buf.skip(4));
        if length > PACKET_SIZE_CAP {
            e == ProtocolError::PacketTooLarge(length as usize)
        } else if length < 8 {
            e == ProtocolError::PacketTooSmall(length as usize)
        } else if buf.len() < length {
            false
        } else {
            let plain = cipher_recv(lanes, buf.subrange(8, length)).1;
            if registered.contains(id) {
                match catalog_parse(id, plain) {
                    Some(_) => false,
                    None => crate::packets::catalog_dec_err(id, plain, e),
                }
            } else if allow_unknown {
                false
            } else {
                e == ProtocolError::PacketUnknownId(id as i32)
            }
        }
    }
}

/// The packet one parsing step decodes when a whole, sound frame is
/// buffered; nothing while bytes are missing or on a malformed frame.
pub open spec fn frame_decoded(
    buf: Seq<u8>,
    lanes: Option<(LaneModel, LaneModel)>,
    registered: Seq<u32>,
    allow_unknown: bool,
) -> Option<PacketModel> {
    if buf.len() < 8 {
        None
    } else {
        let length = be4_val(buf) as int;
        let id = be4_val(buf.skip(4));
        if length > PACKET_SIZE_CAP || length < 8 || buf.len() < length {
            None
        } else {
            let plain = cipher_recv(lanes, buf.subrange(8, length)).1;
            if registered.contains(id) {
                match catalog_parse(id, plain) {
                    Some(p) => Some(p.0),
                    None => None,
                }
            } else if allow_unknown {
                Some(PacketModel::Unknown(id, plain))
            } else {
                None
            }
        }
    }
}

/// What a buffered frame parses or fails to, depends on the cipher lanes
/// only through their decrypt half.
pub proof fn lemma_frame_views_dec_only(
    buf: Seq<u8>,
    l1: Option<(LaneModel, LaneModel)>,
    l2: Option<(LaneModel, LaneModel)>,
    registered: Seq<u32>,
    allow_unknown: bool,
)
    requires
        dec_lane_of(l1) == dec_lane_of(l2),
        (l1 is Some) == (l2 is Some),
    ensures
        frame_decoded(buf, l1, registered, allow_unknown) == frame_decoded(
            buf,
            l2,
            registered,
            allow_unknown,
        ),
        forall|e: ProtocolError|
            #[trigger] frame_parse_error(buf, l1, registered, allow_unknown, e)
                == frame_parse_error(buf, l2, registered, allow_unknown, e),
{
    if buf.len() >= 8 {
        let length = be4_val(buf) as int;
        if 8 <= length <= PACKET_SIZE_CAP && buf.len() >= length {
            assert(cipher_recv(l1, buf.subrange(8, length)).1 == cipher_recv(
                l2,
                buf.subrange(8, length),
            ).1);
        }
    }
}

/// The frame `send_packet` appends for a payload: clear header, ciphered
/// payload.
pub open spec fn frame_bytes(id: u32, ciphered_payload: Seq<u8>) -> Seq<u8> {
    be4((8 + ciphered_payload.len()) as u32) + be4(id) + ciphered_payload
}

/// The frame one packet queues and the encrypt lane it leaves behind; a
/// packet its codec or the cap refuses queues nothing.
pub open spec fn send_step(
    lanes: Option<(LaneModel, LaneModel)>,
    pm: PacketModel,
) -> (Option<(LaneModel, LaneModel)>, Seq<u8>) {
    let payload = packet_model_wire(pm);
    if !packet_model_valid(pm) || 8 + payload.len() > PACKET_SIZE_CAP {
        (lanes, Seq::<u8>::empty())
    } else {
        let (l, c) = cipher_send(lanes, payload);
        (l, frame_bytes(packet_model_id_of(pm), c))
    }
}

/// The frames a sequence of packets queues, in order, threading the encrypt
/// lane; a disconnected connection queues nothing.
pub open spec fn send_fold(
    lanes: Option<(LaneModel, LaneModel)>,
    disconnected: bool,
    pms: Seq<PacketModel>,
) -> (Option<(LaneModel, LaneModel)>, Seq<u8>)
    decreases pms.len(),
{
    if disconnected || pms.len() == 0 {
        (lanes, Seq::<u8>::empty())
    } else {
        let (l1, f) = send_step(lanes, pms[0]);
        let (l2, rest) = send_fold(l1, false, pms.drop_first());
        (l2, f + rest)
    }
}

/// Queueing one more packet extends the fold by one step from the final
/// lane.
pub proof fn lemma_send_fold_snoc(
    lanes: Option<(LaneModel, LaneModel)>,
    disconnected: bool,
    pms: Seq<PacketModel>,
    pm: PacketModel,
)
    requires
        !disconnected,
    ensures
        send_fold(lanes, disconnected, pms.push(pm)).0 == send_step(
            send_fold(lanes, disconnected, pms).0,
            pm,
        ).0,
        send_fold(lanes, disconnected, pms.push(pm)).1 == send_fold(lanes, disconnected, pms).1
            + send_step(send_fold(lanes, disconnected, pms).0, pm).1,
    decreases pms.len(),
{
    if pms.len() == 0 {
        assert(pms.push(pm).drop_first() =~= Seq::<PacketModel>::empty());
        assert(pms.push(pm)[0] == pm);
        assert(send_fold(lanes, disconnected, pms) == (lanes, Seq::<u8>::empty()));
        let (l1, f) = send_step(lanes, pm);
        assert(send_fold(l1, false, Seq::<PacketModel>::empty()) == (
            l1,
            Seq::<u8>::empty(),
        ));
        assert(send_fold(lanes, disconnected, pms.push(pm)).1 =~= send_fold(
            lanes,
            disconnected,
            pms,
        ).1 + f);
    } else {
        assert(pms.push(pm)[0] == pms[0]);
        assert(pms.push(pm).drop_first() =~= pms.drop_first().push(pm));
        let (l1, f) = send_step(lanes, pms[0]);
        lemma_send_fold_snoc(l1, false, pms.drop_first(), pm);
        let tail = send_fold(l1, false, pms.drop_first()).1;
        let last = send_step(send_fold(l1, false, pms.drop_first()).0, pm).1;
        assert(send_fold(lanes, disconnected, pms.push(pm)) == (
            send_fold(l1, false, pms.drop_first().push(pm)).0,
            f + send_fold(l1, false, pms.drop_first().push(pm)).1,
        ));
        assert(send_fold(lanes, disconnected, pms) == (
            send_fold(l1, false, pms.drop_first()).0,
            f + tail,
        ));
        assert(f + (tail + last) =~= (f + tail) + last);
    }
}

/// Queueing a concatenation equals queueing the parts in order, threading
/// the encrypt lane across.
pub proof fn lemma_send_fold_append(
    lanes: Option<(LaneModel, LaneModel)>,
    a: Seq<PacketModel>,
    b: Seq<PacketModel>,
)
    ensures
        send_fold(lanes, false, a + b).0 == send_fold(
            send_fold(lanes, false, a).0,
            false,
            b,
        ).0,
        send_fold(lanes, false, a + b).1 == send_fold(lanes, false, a).1 + send_fold(
            send_fold(lanes, false, a).0,
            false,
            b,
        ).1,
    decreases a.len(),
{
    if a.len() == 0 {
        assert(a + b =~= b);
        assert(send_fold(lanes, false, a) == (lanes, Seq::<u8>::empty()));
        assert(send_fold(lanes, false, a).1 + send_fold(lanes, false, b).1 =~= send_fold(
            lanes,
            false,
            b,
        ).1);
    } else {
        let (l1, f) = send_step(lanes, a[0]);
        assert((a + b)[0] == a[0]);
        assert((a + b).drop_first() =~= a.drop_first() + b);
        lemma_send_fold_append(l1, a.drop_first(), b);
        let ta = send_fold(l1, false, a.drop_first()).1;
        let tb = send_fold(send_fold(l1, false, a.drop_first()).0, false, b).1;
        assert(f + (ta + tb) =~= (f + ta) + tb);
    }
}

/// What a sequence of packets queues depends on the lanes only through the
/// encrypt half.
pub proof fn lemma_send_fold_enc_only(
    l1: Option<(LaneModel, LaneModel)>,
    l2: Option<(LaneModel, LaneModel)>,
    pms: Seq<PacketModel>,
)
    requires
        (l1 is Some) == (l2 is Some),
        l1 matches Some(p1) ==> (l2 matches Some(p2) && p1.0 == p2.0),
    ensures
        send_fold(l1, false, pms).1 == send_fold(l2, false, pms).1,
        (send_fold(l1, false, pms).0 is Some) == (send_fold(l2, false, pms).0 is Some),
        send_fold(l1, false, pms).0 matches Some(q1) ==> (send_fold(
            l2,
            false,
            pms,
        ).0 matches Some(q2) && q1.0 == q2.0),
    decreases pms.len(),
{
    if pms.len() > 0 {
        assert(send_step(l1, pms[0]).1 == send_step(l2, pms[0]).1);
        lemma_send_fold_enc_only(send_step(l1, pms[0]).0, send_step(l2, pms[0]).0, pms.drop_first());
    }
}

/// A full-duplex connection bound to one byte stream.
pub struct Connection {
    is_server: bool,
    cipher: Option<XOrCipher>,
    disconnected: bool,
    recv_buffer: Vec<u8>,
    send_buffer: Vec<u8>,
    packet_registry: PacketRegistry,
}

impl Connection {
    /// The bytes received and not yet consumed by frame parsing.
    pub closed spec fn spec_recv(&self) -> Seq<u8> {
        self.recv_buffer@
    }

    /// The ciphered bytes waiting to be written to the peer.
    pub closed spec fn spec_send(&self) -> Seq<u8> {
        self.send_buffer@
    }

    /// The cipher lanes, or `None` before the handshake.
    pub closed spec fn spec_lanes(&self) -> Option<(LaneModel, LaneModel)> {
        match self.cipher {
            Some(c) => Some((c.enc_lane(), c.dec_lane())),
            None => None,
        }
    }

    /// Whether the connection is terminally closed.
    pub closed spec fn spec_disconnected(&self) -> bool {
        self.disconnected
    }

    /// Whether this side is the server.
    pub closed spec fn spec_is_server(&self) -> bool {
        self.is_server
    }

    /// The ids the inbound registry decodes, and its unknown-id mode.
    pub closed spec fn spec_registry(&self) -> (Seq<u32>, bool) {
        (self.packet_registry.spec_registered(), self.packet_registry.spec_allow_unknown())
    }

    /// The cipher lanes stay well formed and the registry holds catalog ids.
    pub open spec fn wf(&self) -> bool {
        lanes_wf(self.spec_lanes()) && crate::packets::registered_ids_wf(self.spec_registry().0)
    }

    /// A fresh connection around a ready byte stream: in the clear, empty
    /// buffers, decoding the ids the peer may send.
    pub fn new(is_server: bool) -> (r: Connection)
        ensures
            r.wf(),
            r.spec_is_server() == is_server,
            r.spec_lanes() is None,
            !r.spec_disconnected(),
            r.spec_recv() == Seq::<u8>::empty(),
            r.spec_send() == Seq::<u8>::empty(),
            forall|id: u32|
                r.spec_registry().0.contains(id) <==> (crate::packets::catalog_has(id)
                    && catalog_direction(id) == (if is_server {
                    PacketDirection::C2S
                } else {
                    PacketDirection::S2C
                })),
            !r.spec_registry().1,
    {
        let mut packet_registry = PacketRegistry::new();
        if is_server {
            register_all_packets(&mut packet_registry, PacketDirection::C2S);
        } else {
            register_all_packets(&mut packet_registry, PacketDirection::S2C);
        }
        Connection {
            is_server,
            cipher: None,
            disconnected: false,
            recv_buffer: Vec::new(),
            send_buffer: Vec::new(),
            packet_registry,
        }
    }

    /// From now on, frames with unknown ids decode as opaque packets instead
    /// of closing the connection.
    pub fn allow_unknown_packets(&mut self)
        ensures
            final(self).wf() == old(self).wf(),
            final(self).spec_registry().0 == old(self).spec_registry().0,
            final(self).spec_registry().1,
            final(self).spec_recv() == old(self).spec_recv(),
            final(self).spec_send() == old(self).spec_send(),
            final(self).spec_lanes() == old(self).spec_lanes(),
            final(self).spec_disconnected() == old(self).spec_disconnected(),
            final(self).spec_is_server() == old(self).spec_is_server(),
    {
        self.packet_registry.allow_unknown_packets();
    }

    /// Marks the connection terminally closed.
    pub fn disconnect(&mut self)
        ensures
            final(self).wf() == old(self).wf(),
            final(self).spec_disconnected(),
            final(self).spec_recv() == old(self).spec_recv(),
            final(self).spec_send() == old(self).spec_send(),
            final(self).spec_lanes() == old(self).spec_lanes(),
            final(self).spec_registry() == old(self).spec_registry(),
            final(self).spec_is_server() == old(self).spec_is_server(),
    {
        self.disconnected = true;
    }

    /// Whether the connection is terminally closed.
    pub fn is_disconnected(&self) -> (r: bool)
        ensures
            r == self.spec_disconnected(),
    {
        self.disconnected
    }

    /// Installs the cipher lanes derived from the shared seed. The server
    /// installs them after sending the seed, the client after receiving it.
    pub fn install_cipher(&mut self, mode: CipherMode, key: &[u8])
        requires
            old(self).wf(),
        ensures
            final(self).wf(),
            final(self).spec_lanes() == Some(
                (
                    XOrCipher::initial_encrypt_lane(mode, key@),
                    XOrCipher::initial_decrypt_lane(mode, key@),
                ),
            ),
            final(self).spec_recv() == old(self).spec_recv(),
            final(self).spec_send() == old(self).spec_send(),
            final(self).spec_disconnected() == old(self).spec_disconnected(),
            final(self).spec_registry() == old(self).spec_registry(),
            final(self).spec_is_server() == old(self).spec_is_server(),
    {
        self.cipher = Some(XOrCipher::new(mode, key));
    }

    /// Serializes a packet into a frame, ciphers the payload, and queues the
    /// frame for writing.
    ///
    /// On a disconnected connection this is a silent no-op. A packet whose
    /// encoded size would exceed the cap fails with `PacketTooLarge`; a
    /// packet that cannot be encoded fails with its codec error. Either
    /// failure leaves the connection unchanged.
    pub fn send_packet(&mut self, packet: &Packet) -> (r: Result<(), ProtocolError>)
        requires
            old(self).wf(),
        ensures
            final(self).wf(),
            final(self).spec_recv() == old(self).spec_recv(),
            final(self).spec_disconnected() == old(self).spec_disconnected(),
            final(self).spec_registry() == old(self).spec_registry(),
            final(self).spec_is_server() == old(self).spec_is_server(),
            old(self).spec_disconnected() ==> r is Ok && final(self).spec_send() == old(
                self,
            ).spec_send() && final(self).spec_lanes() == old(self).spec_lanes(),
            !old(self).spec_disconnected() ==> {
                let payload = packet_model_wire(packet.model());
                if !packet_model_valid(packet.model()) {
                    &&& r == Err::<(), ProtocolError>(
                        crate::packets::packet_model_enc_err(packet.model()),
                    )
                    &&& final(self).spec_send() == old(self).spec_send()
                    &&& final(self).spec_lanes() == old(self).spec_lanes()
                } else if 8 + payload.len() > PACKET_SIZE_CAP {
                    &&& r == Err::<(), ProtocolError>(
                        ProtocolError::PacketTooLarge(
                            if 8 + payload.len() <= usize::MAX {
                                (8 + payload.len()) as usize
                            } else {
                                usize::MAX
                            },
                        ),
                    )
                    &&& final(self).spec_send() == old(self).spec_send()
                    &&& final(self).spec_lanes() == old(self).spec_lanes()
                } else {
                    let (lanes, ciphered) = cipher_send(old(self).spec_lanes(), payload);
                    &&& r is Ok
                    &&& final(self).spec_lanes() == lanes
                    &&& final(self).spec_send() == old(self).spec_send() + frame_bytes(
                        packet_model_id_of(packet.model()),
                        ciphered,
                    )
                }
            },
    {
        if self.disconnected {
            return Ok(());
        }
        let mut payload: Vec<u8> = Vec::new();
        match packet.encode_payload(&mut payload) {
            Ok(()) => {},
            Err(e) => {
                return Err(e);
            },
        }
        if payload.len() > PACKET_SIZE_CAP - 8 {
            let reported = if payload.len() <= usize::MAX - 8 {
                payload.len() + 8
            } else {
                usize::MAX
            };
            return Err(ProtocolError::PacketTooLarge(reported));
        }
        let ghost plain = payload@;
        match &mut self.cipher {
            Some(c) => {
                match c.encrypt(&mut payload) {
                    Ok(()) => {},
                    Err(_) => {
                        proof {
                            assert(false);
                        }
                    },
                }
            },
            None => {},
        }
        let total: u32 = (payload.len() + 8) as u32;
        let id = packet.packet_id();
        let ghost send0 = self.send_buffer@;
        self.send_buffer.push(((total >> 24) & 0xff) as u8);
        self.send_buffer.push(((total >> 16) & 0xff) as u8);
        self.send_buffer.push(((total >> 8) & 0xff) as u8);
        self.send_buffer.push((total & 0xff) as u8);
        self.send_buffer.push(((id >> 24) & 0xff) as u8);
        self.send_buffer.push(((id >> 16) & 0xff) as u8);
        self.send_buffer.push(((id >> 8) & 0xff) as u8);
        self.send_buffer.push((id & 0xff) as u8);
        let mut i: usize = 0;
        while i < payload.len()
            invariant
                i <= payload@.len(),
                self.send_buffer@ == send0 + be4(total) + be4(id) + payload@.take(i as int),
                self.recv_buffer@ == old(self).recv_buffer@,
                self.disconnected == old(self).disconnected,
                self.is_server == old(self).is_server,
                self.packet_registry == old(self).packet_registry,
                self.spec_lanes() == cipher_send(old(self).spec_lanes(), plain).0,
                lanes_wf(self.spec_lanes()),
                payload@ == cipher_send(old(self).spec_lanes(), plain).1,
            decreases payload@.len() - i,
        {
            let b = payload[i];
            self.send_buffer.push(b);
            proof {
                assert(self.send_buffer@ =~= send0 + be4(total) + be4(id) + payload@.take(i + 1));
            }
            i = i + 1;
        }
        proof {
            assert(payload@.take(payload@.len() as int) =~= payload@);
            assert(self.send_buffer@ =~= send0 + frame_bytes(
                packet_model_id_of(packet.model()),
                cipher_send(old(self).spec_lanes(), plain).1,
            ));
        }
        Ok(())
    }

    /// Appends bytes read from the socket to the read buffer.
    pub fn push_received(&mut self, data: &[u8])
        requires
            old(self).wf(),
        ensures
            final(self).wf(),
            final(self).spec_recv() == old(self).spec_recv() + data@,
            final(self).spec_send() == old(self).spec_send(),
            final(self).spec_lanes() == old(self).spec_lanes(),
            final(self).spec_disconnected() == old(self).spec_disconnected(),
            final(self).spec_registry() == old(self).spec_registry(),
            final(self).spec_is_server() == old(self).spec_is_server(),
    {
        crate::codec::push_bytes(&mut self.recv_buffer, data);
    }

    /// The ciphered bytes waiting to be written to the peer.
    pub fn outgoing(&self) -> (r: &[u8])
        ensures
            r@ == self.spec_send(),
    {
        self.send_buffer.as_slice()
    }

    /// Drops the first `n` bytes of the write buffer after the socket
    /// accepted them.
    pub fn consume_sent(&mut self, n: usize)
        requires
            old(self).wf(),
            n <= old(self).spec_send().len(),
        ensures
            final(self).wf(),
            final(self).spec_send() == old(self).spec_send().skip(n as int),
            final(self).spec_recv() == old(self).spec_recv(),
            final(self).spec_lanes() == old(self).spec_lanes(),
            final(self).spec_disconnected() == old(self).spec_disconnected(),
            final(self).spec_registry() == old(self).spec_registry(),
            final(self).spec_is_server() == old(self).spec_is_server(),
    {
        let mut rest: Vec<u8> = Vec::new();
        let mut i: usize = n;
        while i < self.send_buffer.len()
            invariant
                n <= i <= self.send_buffer@.len(),
                self.send_buffer@ == old(self).send_buffer@,
                rest@ == self.send_buffer@.subrange(n as int, i as int),
            decreases self.send_buffer@.len() - i,
        {
            let b = self.send_buffer[i];
            rest.push(b);
            proof {
                assert(rest@ =~= self.send_buffer@.subrange(n as int, i + 1));
            }
            i = i + 1;
        }
        proof {
            assert(rest@ =~= old(self).send_buffer@.skip(n as int));
        }
        self.send_buffer = rest;
    }

    /// Tries to parse one frame from the read buffer.
    ///
    /// Needs at least 8 buffered bytes and then the declared length;
    /// otherwise `Pending`. A declared length below 8 fails with
    /// `PacketTooSmall`, one above the cap with `PacketTooLarge`; a payload
    /// the catalog rejects fails with its decode error; every failure
    /// disconnects terminally. On success the frame's bytes are consumed —
    /// by the declared length, never by what the decoder read — the payload
    /// is deciphered once, and the decoded packet is handed back.
    pub fn try_parse_read_buffer(&mut self) -> (r: Result<FrameStep, ProtocolError>)
        requires
            old(self).wf(),
        ensures
            final(self).wf(),
            final(self).spec_send() == old(self).spec_send(),
            final(self).spec_registry() == old(self).spec_registry(),
            final(self).spec_is_server() == old(self).spec_is_server(),
            r matches Err(e) ==> frame_parse_error(
                old(self).spec_recv(),
                old(self).spec_lanes(),
                old(self).spec_registry().0,
                old(self).spec_registry().1,
                e,
            ),
            (r matches Ok(FrameStep::Decoded(pk)) ==> frame_decoded(
                old(self).spec_recv(),
                old(self).spec_lanes(),
                old(self).spec_registry().0,
                old(self).spec_registry().1,
            ) == Some(pk.model())),
            (r matches Ok(FrameStep::Pending) ==> frame_decoded(
                old(self).spec_recv(),
                old(self).spec_lanes(),
                old(self).spec_registry().0,
                old(self).spec_registry().1,
            ) is None),
            ({
                let buf = old(self).spec_recv();
                if buf.len() < 8 {
                    &&& r matches Ok(FrameStep::Pending)
                    &&& *final(self) == *old(self)
                } else {
                    let length = be4_val(buf) as int;
                    let id = be4_val(buf.skip(4));
                    if length > PACKET_SIZE_CAP {
                        &&& r == Err::<FrameStep, ProtocolError>(
                            ProtocolError::PacketTooLarge(length as usize),
                        )
                        &&& final(self).spec_disconnected()
                    } else if length < 8 {
                        &&& r == Err::<FrameStep, ProtocolError>(
                            ProtocolError::PacketTooSmall(length as usize),
                        )
                        &&& final(self).spec_disconnected()
                    } else if buf.len() < length {
                        &&& r matches Ok(FrameStep::Pending)
                        &&& *final(self) == *old(self)
                    } else {
                        let ciphered = buf.subrange(8, length);
                        let (lanes, plain) = cipher_recv(old(self).spec_lanes(), ciphered);
                        let registered = old(self).spec_registry().0.contains(id);
                        let allow_unknown = old(self).spec_registry().1;
                        if registered {
                            match catalog_parse(id, plain) {
                                Some(p) => {
                                    &&& r matches Ok(FrameStep::Decoded(pk)) && pk.model() == p.0
                                    &&& final(self).spec_recv() == buf.skip(length)
                                    &&& final(self).spec_lanes() == lanes
                                    &&& final(self).spec_disconnected() == old(
                                        self,
                                    ).spec_disconnected()
                                },
                                None => {
                                    &&& r matches Err(e) && crate::packets::catalog_dec_err(
                                        id,
                                        plain,
                                        e,
                                    )
                                    &&& final(self).spec_disconnected()
                                },
                            }
                        } else if allow_unknown {
                            &&& r matches Ok(FrameStep::Decoded(pk)) && pk.model()
                                == PacketModel::Unknown(id, plain)
                            &&& final(self).spec_recv() == buf.skip(length)
                            &&& final(self).spec_lanes() == lanes
                            &&& final(self).spec_disconnected() == old(self).spec_disconnected()
                        } else {
                            &&& r == Err::<FrameStep, ProtocolError>(
                                ProtocolError::PacketUnknownId(id as i32),
                            )
                            &&& final(self).spec_disconnected()
                        }
                    }
                }
            }),
    {
        if self.recv_buffer.len() < 8 {
            return Ok(FrameStep::Pending);
        }
        let b0 = self.recv_buffer[0];
        let b1 = self.recv_buffer[1];
        let b2 = self.recv_buffer[2];
        let b3 = self.recv_buffer[3];
        let length_u32: u32 = ((b0 as u32) << 24) | ((b1 as u32) << 16) | ((b2 as u32) << 8) | (
        b3 as u32);
        let c0 = self.recv_buffer[4];
        let c1 = self.recv_buffer[5];
        let c2 = self.recv_buffer[6];
        let c3 = self.recv_buffer[7];
        let id: u32 = ((c0 as u32) << 24) | ((c1 as u32) << 16) | ((c2 as u32) << 8) | (c3 as u32);
        proof {
            assert(self.recv_buffer@.skip(4)[0] == c0 && self.recv_buffer@.skip(4)[1] == c1
                && self.recv_buffer@.skip(4)[2] == c2 && self.recv_buffer@.skip(4)[3] == c3);
        }
        let length = length_u32 as usize;
        if length > PACKET_SIZE_CAP {
            self.disconnected = true;
            return Err(ProtocolError::PacketTooLarge(length));
        }
        if length < 8 {
            self.disconnected = true;
            return Err(ProtocolError::PacketTooSmall(length));
        }
        if self.recv_buffer.len() < length {
            return Ok(FrameStep::Pending);
        }
        // Lift the ciphered payload out of the frame.
        let mut payload: Vec<u8> = Vec::new();
        let mut i: usize = 8;
        while i < length
            invariant
                8 <= i <= length,
                length <= self.recv_buffer@.len(),
                self.recv_buffer@ == old(self).recv_buffer@,
                payload@ == self.recv_buffer@.subrange(8, i as int),
            decreases length - i,
        {
            let b = self.recv_buffer[i];
            payload.push(b);
            proof {
                assert(payload@ =~= self.recv_buffer@.subrange(8, i + 1));
            }
            i = i + 1;
        }
        let ghost ciphered = old(self).spec_recv().subrange(8, length as int);
        match &mut self.cipher {
            Some(c) => {
                match c.decrypt(&mut payload) {
                    Ok(()) => {},
                    Err(_) => {
                        proof {
                            assert(false);
                        }
                    },
                }
            },
            None => {},
        }
        proof {
            assert(payload@ == cipher_recv(old(self).spec_lanes(), ciphered).1);
        }
        let decoded = {
            let mut reader = Reader::new(payload.as_slice());
            self.packet_registry.decode(&mut reader, id)
        };
        let packet = match decoded {
            Ok(p) => p,
            Err(e) => {
                self.disconnected = true;
                return Err(e);
            },
        };
        // Advance by the declared length, never by what the decoder read.
        let mut rest: Vec<u8> = Vec::new();
        let mut j: usize = length;
        while j < self.recv_buffer.len()
            invariant
                length <= j <= self.recv_buffer@.len(),
                self.recv_buffer@ == old(self).recv_buffer@,
                rest@ == self.recv_buffer@.subrange(length as int, j as int),
            decreases self.recv_buffer@.len() - j,
        {
            let b = self.recv_buffer[j];
            rest.push(b);
            proof {
                assert(rest@ =~= self.recv_buffer@.subrange(length as int, j + 1));
            }
            j = j + 1;
        }
        proof {
            assert(rest@ =~= old(self).recv_buffer@.skip(length as int));
        }
        self.recv_buffer = rest;
        Ok(FrameStep::Decoded(packet))
    }
}

/// The first framing invariant of every sent frame: its first 4 bytes are a
/// big-endian length of at least 8 and at most the cap, equal to the frame's
/// own length.
pub proof fn lemma_sent_frame_header(id: u32, ciphered: Seq<u8>)
    requires
        8 + ciphered.len() <= PACKET_SIZE_CAP,
    ensures
        frame_bytes(id, ciphered).len() == 8 + ciphered.len(),
        be4_val(frame_bytes(id, ciphered)) == 8 + ciphered.len(),
        8 <= be4_val(frame_bytes(id, ciphered)) <= PACKET_SIZE_CAP,
        be4_val(frame_bytes(id, ciphered).skip(4)) == id,
{
    let total = (8 + ciphered.len()) as u32;
    let f = frame_bytes(id, ciphered);
    crate::codec::lemma_be4_roundtrip(total);
    assert(f[0] == be4(total)[0] && f[1] == be4(total)[1] && f[2] == be4(total)[2] && f[3] == be4(
        total,
    )[3]);
    crate::codec::lemma_be4_roundtrip(id);
    assert(f.skip(4)[0] == be4(id)[0] && f.skip(4)[1] == be4(id)[1] && f.skip(4)[2] == be4(id)[2]
        && f.skip(4)[3] == be4(id)[3]);
}

/// The second framing invariant: the payload of a sent frame, deciphered on
/// the peer's paired lane, is the packet's own payload bytes, and those
/// bytes decode under the frame's id back to the packet that was sent.
pub proof fn lemma_sent_frame_decodable(m: PacketModel, lane: LaneModel)
    requires
        packet_model_valid(m),
        !(m is Unknown),
        lane_wf(lane),
    ensures
        ({
            let payload = packet_model_wire(m);
            let ciphered = enc_seq(lane, payload).1;
            &&& dec_seq(lane, ciphered).1 == payload
            &&& dec_seq(lane, ciphered).0 == enc_seq(lane, payload).0
            &&& catalog_parse(packet_model_id_of(m), payload) == Some(
                (m, payload.len() as nat),
            )
        }),
{
    let payload = packet_model_wire(m);
    crate::crypto::lemma_cipher_roundtrip(lane, payload);
    crate::packets::lemma_catalog_roundtrip(m, Seq::<u8>::empty());
    assert(payload + Seq::<u8>::empty() =~= payload);
}

} // verus!
