//! The packet codec: packets to frames, and a stream of received bytes back
//! to packets.

use crate::error::{ConfigError, DecodeError};
use crate::frames::{
    after_packets, decoded_payload, frame, frame_of, lemma_after_no_packets,
    lemma_after_packets_twice, lemma_frame_round_trip, lemma_next_frame_len,
    lemma_parse_frames_extend, lemma_plain_frame, lemma_sealed_frame, lemma_zero_length_frame,
    next_frame, parse_frames, seal_opens, sealed_payload, Frames, NextFrame,
};
use crate::packets::{packet_views, Packet, PacketView};
use crate::trusted::{fresh_nonce, open, seal, AEAD_NONCE_LEN};
use crate::varint::{lemma_capacity_values, lemma_parse_varint_bounds, push_varint, read_varint};
use crate::wire::{decode_packet, encode_packet, lemma_packet_wire_len, packet_wire};
use vstd::prelude::*;
use vstd::slice::slice_subrange;

verus! {

/// Turns packets into frames, and a stream of received bytes back into
/// packets.
pub struct PacketCodec {
    key: Option<[u8; 32]>,
    buffer: Vec<u8>,
    started: bool,
}

/// A codec as a value.
pub struct CodecView {
    /// The encryption key, if one is configured.
    pub key: Option<Seq<u8>>,
    /// The received bytes that no packet was made of yet.
    pub buffered: Seq<u8>,
    /// Whether the codec has been used: whether it has written a frame or
    /// received bytes.
    pub started: bool,
}

impl View for PacketCodec {
    type V = CodecView;

    closed spec fn view(&self) -> CodecView {
        CodecView { key: key_view(self.key), buffered: self.buffer@, started: self.started }
    }
}

/// A codec without encryption that has not been used.
pub open spec fn new_codec() -> CodecView {
    CodecView { key: None, buffered: Seq::empty(), started: false }
}

/// What configuring `key` answers: a codec takes a key once, and only
/// before its first use.
pub open spec fn configured(codec: CodecView, key: Seq<u8>) -> Result<CodecView, ConfigError> {
    if codec.started {
        Err(ConfigError::AlreadyStarted)
    } else if codec.key is Some {
        Err(ConfigError::KeyAlreadySet)
    } else {
        Ok(CodecView { key: Some(key), ..codec })
    }
}

/// The codec after it has written a frame: it has been used.
pub open spec fn after_write(codec: CodecView) -> CodecView {
    CodecView { started: true, ..codec }
}

/// The packets that a codec hands out when it receives `data`.
pub open spec fn read_packets(codec: CodecView, data: Seq<u8>) -> Result<
    Seq<PacketView>,
    DecodeError,
> {
    match parse_frames(codec.key, codec.buffered + data) {
        Ok(frames) => Ok(frames.packets),
        Err(e) => Err(e),
    }
}

/// The codec after it has received `data`: it keeps what follows the last
/// complete frame, or on an error all the bytes that it has.
pub open spec fn after_read(codec: CodecView, data: Seq<u8>) -> CodecView {
    CodecView {
        key: codec.key,
        buffered: match parse_frames(codec.key, codec.buffered + data) {
            Ok(frames) => frames.rest,
            Err(_) => codec.buffered + data,
        },
        started: codec.started || data.len() > 0,
    }
}

/// Framing resilience: a codec that receives a stream in two pieces hands
/// out, over the two reads, the packets that it would hand out for the
/// stream in one piece, in the same order, and ends up as it would. An
/// error at the first piece is the error for the whole.
pub proof fn lemma_read_in_pieces(codec: CodecView, first: Seq<u8>, second: Seq<u8>)
    ensures
        match read_packets(codec, first) {
            Ok(early) => match read_packets(after_read(codec, first), second) {
                Ok(late) => {
                    &&& read_packets(codec, first + second) == Ok::<Seq<PacketView>, DecodeError>(
                        early + late,
                    )
                    &&& after_read(codec, first + second) == after_read(
                        after_read(codec, first),
                        second,
                    )
                },
                Err(e) => read_packets(codec, first + second) == Err::<
                    Seq<PacketView>,
                    DecodeError,
                >(e),
            },
            Err(e) => read_packets(codec, first + second) == Err::<Seq<PacketView>, DecodeError>(
                e,
            ),
        },
{
    assert(codec.buffered + (first + second) =~= (codec.buffered + first) + second);
    lemma_parse_frames_extend(codec.key, codec.buffered + first, second);
}

/// Round trip: a codec that has nothing buffered and receives one frame
/// that carries a packet under its key hands out that packet and keeps
/// nothing back.
pub proof fn lemma_read_frame(codec: CodecView, bytes: Seq<u8>, packet: PacketView)
    requires
        codec.buffered.len() == 0,
        frame_of(codec.key, bytes, packet),
    ensures
        read_packets(codec, bytes) == Ok::<Seq<PacketView>, DecodeError>(seq![packet]),
        after_read(codec, bytes).buffered == Seq::<u8>::empty(),
{
    assert(codec.buffered + bytes =~= bytes);
    lemma_frame_round_trip(codec.key, bytes, packet);
}

/// Zero-length tolerance: a codec that has nothing buffered and receives
/// a frame of length zero alone hands out no packet, reports no error and
/// keeps nothing back.
pub proof fn lemma_read_zero_length(codec: CodecView)
    requires
        codec.buffered.len() == 0,
    ensures
        read_packets(codec, seq![0u8]) == Ok::<Seq<PacketView>, DecodeError>(Seq::empty()),
        after_read(codec, seq![0u8]).buffered == Seq::<u8>::empty(),
{
    assert(codec.buffered + seq![0u8] =~= seq![0u8]);
    lemma_zero_length_frame(codec.key, Seq::empty());
}

impl PacketCodec {
    /// A codec without encryption that has not been used.
    pub fn new() -> (codec: PacketCodec)
        ensures
            codec@ == new_codec(),
    {
        PacketCodec { key: None, buffer: Vec::new(), started: false }
    }

    /// The number of received bytes that no packet was made of yet.
    pub fn buffered_len(&self) -> (len: usize)
        ensures
            len == self@.buffered.len(),
    {
        self.buffer.len()
    }

    /// Whether a key is configured.
    pub fn is_encrypted(&self) -> (encrypted: bool)
        ensures
            encrypted == self@.key.is_some(),
    {
        self.key.is_some()
    }

    /// Configures encryption under `key`. A codec takes a key once, and
    /// only before its first use: once it has written a frame or received
    /// bytes the call is refused and changes nothing.
    pub fn enable_encryption(&mut self, key: &[u8; 32]) -> (r: Result<(), ConfigError>)
        ensures
            match configured(old(self)@, key@) {
                Ok(codec) => r is Ok && final(self)@ == codec,
                Err(e) => r == Err::<(), ConfigError>(e) && final(self)@ == old(self)@,
            },
    {
        if self.started {
            return Err(ConfigError::AlreadyStarted);
        }
        match self.key {
            Some(_) => Err(ConfigError::KeyAlreadySet),
            None => {
                self.key = Some(*key);
                Ok(())
            },
        }
    }

    /// The frame that carries `packet`, encrypted under `nonce` where a key
    /// is configured: the length of the payload, and the payload. Under a
    /// key the payload is the nonce and the sealed packet, which is 16
    /// bytes longer than the plain packet and opens to it. The codec counts
    /// as used from here on.
    pub fn write_with_nonce(&mut self, packet: &Packet, nonce: &[u8; 12]) -> (bytes: Vec<u8>)
        ensures
            final(self)@ == after_write(old(self)@),
            bytes@ == frame(sealed_payload(old(self)@.key, nonce@, packet_wire(packet@))),
            seal_opens(old(self)@.key, nonce@, packet_wire(packet@)),
            frame_of(old(self)@.key, bytes@, packet@),
            parse_frames(old(self)@.key, bytes@) == Ok::<Frames, DecodeError>(
                Frames { packets: seq![packet@], rest: Seq::empty() },
            ),
    {
        self.started = true;
        let plain = encode_packet(packet);
        proof {
            lemma_packet_wire_len(packet@);
        }
        let payload = match &self.key {
            Some(key) => {
                let sealed = seal(key, nonce, plain.as_slice());
                let mut payload: Vec<u8> = Vec::new();
                append_bytes(&mut payload, nonce.as_slice());
                append_bytes(&mut payload, sealed.as_slice());
                proof {
                    lemma_sealed_frame(key@, nonce@, packet@);
                }
                payload
            },
            None => {
                proof {
                    lemma_plain_frame(packet@);
                }
                plain
            },
        };
        let mut bytes: Vec<u8> = Vec::with_capacity(payload.len() + 1);
        push_varint(&mut bytes, payload.len() as u32);
        append_bytes(&mut bytes, payload.as_slice());
        proof {
            assert(bytes@ =~= frame(payload@));
            lemma_frame_round_trip(self@.key, bytes@, packet@);
        }
        bytes
    }

    /// The frame that carries `packet`, encrypted under a fresh random nonce
    /// where a key is configured. Whatever the nonce, the sealed packet is
    /// 16 bytes longer than the plain one and opens to it, and a codec with
    /// the same key reads the packet back from the frame. The codec counts
    /// as used from here on.
    pub fn write(&mut self, packet: &Packet) -> (bytes: Vec<u8>)
        ensures
            final(self)@ == after_write(old(self)@),
            exists|nonce: Seq<u8>|
                {
                    &&& nonce.len() == AEAD_NONCE_LEN
                    &&& bytes@ == #[trigger] frame(
                        sealed_payload(old(self)@.key, nonce, packet_wire(packet@)),
                    )
                    &&& seal_opens(old(self)@.key, nonce, packet_wire(packet@))
                },
            old(self)@.key is None ==> bytes@ == frame(packet_wire(packet@)),
            frame_of(old(self)@.key, bytes@, packet@),
            parse_frames(old(self)@.key, bytes@) == Ok::<Frames, DecodeError>(
                Frames { packets: seq![packet@], rest: Seq::empty() },
            ),
    {
        let nonce = fresh_nonce();
        let bytes = self.write_with_nonce(packet, &nonce);
        assert(bytes@ == frame(sealed_payload(old(self)@.key, nonce@, packet_wire(packet@))));
        bytes
    }

    /// Takes in received bytes and hands out the packets of the frames that
    /// are now complete, keeping what follows them for the next call. On an
    /// error no packet is handed out and nothing is dropped from the buffer.
    pub fn read(&mut self, data: &[u8]) -> (r: Result<Vec<Packet>, DecodeError>)
        ensures
            final(self)@ == after_read(old(self)@, data@),
            match read_packets(old(self)@, data@) {
                Ok(packets) => r matches Ok(read) && packet_views(read@) == packets,
                Err(e) => r == Err::<Vec<Packet>, DecodeError>(e),
            },
    {
        if data.len() > 0 {
            self.started = true;
        }
        append_bytes(&mut self.buffer, data);
        let ghost all = self.buffer@;
        let ghost key = self@.key;
        let ghost started = self.started;
        let mut packets: Vec<Packet> = Vec::new();
        let mut at: usize = 0;
        let total: usize = self.buffer.len();
        proof {
            assert(all.skip(0) =~= all);
            assert(packet_views(packets@) =~= Seq::<PacketView>::empty());
            lemma_after_no_packets(parse_frames(key, all));
        }
        loop
            invariant
                at <= all.len() == total,
                self.buffer@ == all,
                all == old(self)@.buffered + data@,
                self.key == old(self).key,
                self.started == started,
                started == (old(self)@.started || data@.len() > 0),
                key == self@.key,
                parse_frames(key, all) == after_packets(
                    packet_views(packets@),
                    parse_frames(key, all.skip(at as int)),
                ),
            ensures
                at <= all.len(),
                self.buffer@ == all,
                self.key == old(self).key,
                self.started == started,
                parse_frames(key, all) == Ok::<Frames, DecodeError>(
                    Frames { packets: packet_views(packets@), rest: all.skip(at as int) },
                ),
            decreases all.len() - at,
        {
            let ghost left = all.skip(at as int);
            proof {
                lemma_next_frame_len(key, left);
            }
            match take_frame(&self.key, self.buffer.as_slice(), at) {
                FrameRead::Partial => {
                    proof {
                        assert(packet_views(packets@) + Seq::<PacketView>::empty()
                            =~= packet_views(packets@));
                    }
                    break ;
                },
                FrameRead::Broken(e) => {
                    return Err(e);
                },
                FrameRead::Empty { len } => {
                    assert(left.skip(len as int) =~= all.skip(at + len));
                    at = at + len;
                },
                FrameRead::Whole { packet, len } => {
                    let ghost had = packets@;
                    packets.push(packet);
                    proof {
                        assert(left.skip(len as int) =~= all.skip(at + len));
                        assert(packet_views(packets@) =~= packet_views(had) + seq![packet@]);
                        lemma_after_packets_twice(
                            packet_views(had),
                            seq![packet@],
                            parse_frames(key, all.skip(at + len)),
                        );
                    }
                    at = at + len;
                },
            }
        }
        let rest = self.buffer.split_off(at);
        self.buffer = rest;
        assert(self.buffer@ =~= all.skip(at as int));
        Ok(packets)
    }
}

/// What `take_frame` found.
enum FrameRead {
    Partial,
    Broken(DecodeError),
    Empty { len: usize },
    Whole { packet: Packet, len: usize },
}

impl FrameRead {
    spec fn view(&self) -> NextFrame {
        match self {
            FrameRead::Partial => NextFrame::Partial,
            FrameRead::Broken(e) => NextFrame::Broken(*e),
            FrameRead::Empty { len } => NextFrame::Empty { len: *len as nat },
            FrameRead::Whole { packet, len } => NextFrame::Whole {
                packet: packet@,
                len: *len as nat,
            },
        }
    }
}

/// The view of an executable key.
spec fn key_view(key: Option<[u8; 32]>) -> Option<Seq<u8>> {
    match key {
        Some(k) => Some(k@),
        None => None,
    }
}

/// Looks at the frame that starts at `at`.
fn take_frame(key: &Option<[u8; 32]>, buffer: &[u8], at: usize) -> (r: FrameRead)
    requires
        at <= buffer@.len(),
    ensures
        r@ == next_frame(key_view(*key), buffer@.skip(at as int)),
{
    let ghost left = buffer@.skip(at as int);
    let total: usize = buffer.len();
    let tail = slice_subrange(buffer, at, total);
    assert(tail@ =~= left);
    proof {
        lemma_parse_varint_bounds(left, 5, 15);
        lemma_capacity_values();
    }
    let (length, prefix) = match read_varint(tail) {
        Err(e) => {
            return FrameRead::Broken(e);
        },
        Ok(None) => {
            return FrameRead::Partial;
        },
        Ok(Some(found)) => found,
    };
    if length == 0 {
        return FrameRead::Empty { len: prefix };
    }
    if total - at - prefix < length as usize {
        return FrameRead::Partial;
    }
    let start: usize = at + prefix;
    let end: usize = start + length as usize;
    let payload = slice_subrange(buffer, start, end);
    assert(payload@ =~= left.subrange(prefix as int, prefix + length));
    match decode_payload(key, payload) {
        Err(e) => FrameRead::Broken(e),
        Ok(packet) => FrameRead::Whole { packet, len: prefix + length as usize },
    }
}

/// Appends `data` to `buf`.
fn append_bytes(buf: &mut Vec<u8>, data: &[u8])
    ensures
        final(buf)@ == old(buf)@ + data@,
{
    let ghost before = buf@;
    let mut i: usize = 0;
    while i < data.len()
        invariant
            i <= data@.len(),
            buf@ == before + data@.take(i as int),
        decreases data@.len() - i,
    {
        buf.push(data[i]);
        assert(buf@ =~= before + data@.take(i + 1));
        i += 1;
    }
    assert(data@.take(data@.len() as int) =~= data@);
}

impl Default for PacketCodec {
    fn default() -> (codec: PacketCodec)
        ensures
            codec@ == new_codec(),
    {
        PacketCodec::new()
    }
}

/// Opens a complete payload and reads the packet in it.
fn decode_payload(key: &Option<[u8; 32]>, payload: &[u8]) -> (r: Result<Packet, DecodeError>)
    ensures
        match decoded_payload(key_view(*key), payload@) {
            Ok(view) => r matches Ok(packet) && packet@ == view,
            Err(e) => r == Err::<Packet, DecodeError>(e),
        },
{
    match key {
        None => decode_packet(payload),
        Some(k) => {
            if payload.len() < AEAD_NONCE_LEN {
                return Err(DecodeError::ShortPayload);
            }
            let nonce = slice_subrange(payload, 0, AEAD_NONCE_LEN);
            let sealed = slice_subrange(payload, AEAD_NONCE_LEN, payload.len());
            assert(nonce@ =~= payload@.take(AEAD_NONCE_LEN as int));
            assert(sealed@ =~= payload@.skip(AEAD_NONCE_LEN as int));
            match open(k, nonce, sealed) {
                Some(plain) => decode_packet(plain.as_slice()),
                None => Err(DecodeError::Decrypt),
            }
        },
    }
}

} // verus!
