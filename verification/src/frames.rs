//! Frames on a byte stream, as values: each packet travels as the length of
//! its payload, written as a varint, and the payload itself. With a key
//! configured, a payload is a 12-byte nonce and the packet encrypted under
//! it.

use crate::error::DecodeError;
use crate::packets::PacketView;
use crate::trusted::{aes256_gcm_decrypt, aes256_gcm_encrypt, AEAD_NONCE_LEN, AEAD_TAG_LEN};
use crate::varint::{
    lemma_capacity_values, lemma_parse_varint_bounds, lemma_parse_varint_bytes,
    lemma_parse_varint_extend, lemma_parse_varint_prefix, parse_varint, parse_width,
    varint_bytes, VarintParse, Width,
};
use crate::wire::{
    lemma_packet_wire_len, lemma_parse_packet_wire, packet_valid, packet_wire, parse_packet,
};
use vstd::prelude::*;

verus! {

/// The frame that carries `payload`.
pub open spec fn frame(payload: Seq<u8>) -> Seq<u8> {
    varint_bytes(payload.len()) + payload
}

/// The payload that carries the plain bytes of a packet: the bytes
/// themselves, or under a key the nonce and what encryption makes of them.
pub open spec fn sealed_payload(key: Option<Seq<u8>>, nonce: Seq<u8>, plain: Seq<u8>) -> Seq<u8> {
    match key {
        None => plain,
        Some(k) => nonce + aes256_gcm_encrypt(k, nonce, plain),
    }
}

/// Under a key, what encryption makes of `plain` under `nonce` is 16 bytes
/// longer than `plain`, and decryption under the same key and nonce gives
/// `plain` back.
pub open spec fn seal_opens(key: Option<Seq<u8>>, nonce: Seq<u8>, plain: Seq<u8>) -> bool {
    key matches Some(k) ==> {
        &&& aes256_gcm_encrypt(k, nonce, plain).len() == plain.len() + AEAD_TAG_LEN
        &&& aes256_gcm_decrypt(k, nonce, aes256_gcm_encrypt(k, nonce, plain)) == Some(plain)
    }
}

/// The plain bytes in a received payload.
pub open spec fn opened_payload(key: Option<Seq<u8>>, payload: Seq<u8>) -> Result<
    Seq<u8>,
    DecodeError,
> {
    match key {
        None => Ok(payload),
        Some(k) => if payload.len() < AEAD_NONCE_LEN {
            Err(DecodeError::ShortPayload)
        } else {
            match aes256_gcm_decrypt(
                k,
                payload.take(AEAD_NONCE_LEN as int),
                payload.skip(AEAD_NONCE_LEN as int),
            ) {
                Some(plain) => Ok(plain),
                None => Err(DecodeError::Decrypt),
            }
        },
    }
}

/// The packet in a received payload.
pub open spec fn decoded_payload(key: Option<Seq<u8>>, payload: Seq<u8>) -> Result<
    PacketView,
    DecodeError,
> {
    match opened_payload(key, payload) {
        Err(e) => Err(e),
        Ok(plain) => match parse_packet(plain) {
            Some(packet) => Ok(packet),
            None => Err(DecodeError::Deserialize),
        },
    }
}

/// What a buffer of received bytes holds: the packets of its complete
/// frames, and the bytes of the frame that has not yet arrived in full.
pub struct Frames {
    pub packets: Seq<PacketView>,
    pub rest: Seq<u8>,
}

/// `found` with `first` put in front of its packets.
pub open spec fn after_packets(first: Seq<PacketView>, found: Result<Frames, DecodeError>)
    -> Result<Frames, DecodeError> {
    match found {
        Ok(frames) => Ok(Frames { packets: first + frames.packets, rest: frames.rest }),
        Err(e) => Err(e),
    }
}

/// What stands at the front of a buffer of received bytes.
pub enum NextFrame {
    /// A frame that has not arrived in full.
    Partial,
    /// A length prefix that can never become valid, or a complete payload
    /// that holds no packet.
    Broken(DecodeError),
    /// A frame of length zero, which takes `len` bytes.
    Empty { len: nat },
    /// A frame of `len` bytes in all that carries `packet`.
    Whole { packet: PacketView, len: nat },
}

/// Looks at the front of `buf`.
pub open spec fn next_frame(key: Option<Seq<u8>>, buf: Seq<u8>) -> NextFrame {
    match parse_width(buf, Width::U32) {
        VarintParse::Incomplete => NextFrame::Partial,
        VarintParse::Malformed => NextFrame::Broken(DecodeError::BadLength),
        VarintParse::Value { value: length, len: prefix } => {
            if length == 0 {
                NextFrame::Empty { len: prefix }
            } else if buf.len() < prefix + length {
                NextFrame::Partial
            } else {
                match decoded_payload(key, buf.subrange(prefix as int, (prefix + length) as int)) {
                    Err(e) => NextFrame::Broken(e),
                    Ok(packet) => NextFrame::Whole { packet, len: prefix + length },
                }
            }
        },
    }
}

/// A frame at the front of a buffer takes at least one byte and no more
/// bytes than there are.
pub proof fn lemma_next_frame_len(key: Option<Seq<u8>>, buf: Seq<u8>)
    ensures
        next_frame(key, buf) matches NextFrame::Empty { len } ==> 1 <= len <= buf.len(),
        next_frame(key, buf) matches NextFrame::Whole { packet: _, len } ==> 2 <= len <= buf.len(),
{
    lemma_parse_varint_bounds(buf, 5, 15);
}

/// Reads `buf` frame by frame. A frame of length zero carries nothing and
/// is passed over. Reading stops before the first frame that is not there
/// in full, and fails at the first broken one.
pub open spec fn parse_frames(key: Option<Seq<u8>>, buf: Seq<u8>) -> Result<Frames, DecodeError>
    decreases buf.len(),
{
    match next_frame(key, buf) {
        NextFrame::Partial => Ok(Frames { packets: Seq::empty(), rest: buf }),
        NextFrame::Broken(e) => Err(e),
        NextFrame::Empty { len } => {
            proof {
                lemma_next_frame_len(key, buf);
            }
            parse_frames(key, buf.skip(len as int))
        },
        NextFrame::Whole { packet, len } => {
            proof {
                lemma_next_frame_len(key, buf);
            }
            after_packets(seq![packet], parse_frames(key, buf.skip(len as int)))
        },
    }
}

/// Putting no packets in front changes nothing.
pub proof fn lemma_after_no_packets(found: Result<Frames, DecodeError>)
    ensures
        after_packets(Seq::empty(), found) == found,
{
    if let Ok(frames) = found {
        assert(Seq::<PacketView>::empty() + frames.packets =~= frames.packets);
    }
}

/// Putting packets in front twice puts their concatenation in front.
pub proof fn lemma_after_packets_twice(
    first: Seq<PacketView>,
    second: Seq<PacketView>,
    found: Result<Frames, DecodeError>,
)
    ensures
        after_packets(first, after_packets(second, found)) == after_packets(first + second, found),
{
    if let Ok(frames) = found {
        assert(first + (second + frames.packets) =~= (first + second) + frames.packets);
    }
}

/// A complete frame at the front of a buffer is read as its packet, and
/// reading goes on behind it.
pub proof fn lemma_frame_parses(
    key: Option<Seq<u8>>,
    payload: Seq<u8>,
    packet: PacketView,
    more: Seq<u8>,
)
    requires
        0 < payload.len() <= u32::MAX,
        decoded_payload(key, payload) == Ok::<PacketView, DecodeError>(packet),
    ensures
        parse_frames(key, frame(payload) + more) == after_packets(
            seq![packet],
            parse_frames(key, more),
        ),
{
    let buf = frame(payload) + more;
    let prefix = varint_bytes(payload.len());
    lemma_capacity_values();
    assert(buf =~= prefix + (payload + more));
    lemma_parse_varint_bytes(payload.len(), payload + more, 5, 15);
    assert(buf.subrange(prefix.len() as int, (prefix.len() + payload.len()) as int) =~= payload);
    assert(buf.skip((prefix.len() + payload.len()) as int) =~= more);
    assert(next_frame(key, buf) == (NextFrame::Whole {
        packet,
        len: prefix.len() + payload.len(),
    }));
}

/// `bytes` is one frame whose payload carries `packet` under `key`.
pub open spec fn frame_of(key: Option<Seq<u8>>, bytes: Seq<u8>, packet: PacketView) -> bool {
    exists|payload: Seq<u8>|
        {
            &&& bytes == #[trigger] frame(payload)
            &&& 0 < payload.len() <= u32::MAX
            &&& decoded_payload(key, payload) == Ok::<PacketView, DecodeError>(packet)
        }
}

/// Without a key, the frame around a packet's payload carries the packet.
pub proof fn lemma_plain_frame(packet: PacketView)
    requires
        packet_valid(packet),
    ensures
        frame_of(None, frame(packet_wire(packet)), packet),
{
    let payload = packet_wire(packet);
    lemma_packet_wire_len(packet);
    lemma_parse_packet_wire(packet, Seq::empty());
    assert(payload + Seq::<u8>::empty() =~= payload);
    assert(decoded_payload(None, payload) == Ok::<PacketView, DecodeError>(packet));
}

/// Under a key, the frame around a nonce and the encrypted payload carries
/// the packet, provided that the cipher opens what it sealed.
pub proof fn lemma_sealed_frame(key: Seq<u8>, nonce: Seq<u8>, packet: PacketView)
    requires
        packet_valid(packet),
        nonce.len() == AEAD_NONCE_LEN,
        seal_opens(Some(key), nonce, packet_wire(packet)),
    ensures
        frame_of(
            Some(key),
            frame(sealed_payload(Some(key), nonce, packet_wire(packet))),
            packet,
        ),
{
    let plain = packet_wire(packet);
    let sealed = aes256_gcm_encrypt(key, nonce, plain);
    let payload = sealed_payload(Some(key), nonce, plain);
    lemma_packet_wire_len(packet);
    lemma_parse_packet_wire(packet, Seq::empty());
    assert(plain + Seq::<u8>::empty() =~= plain);
    assert(payload.take(AEAD_NONCE_LEN as int) =~= nonce);
    assert(payload.skip(AEAD_NONCE_LEN as int) =~= sealed);
    assert(decoded_payload(Some(key), payload) == Ok::<PacketView, DecodeError>(packet));
}

/// Reading back what was written: a frame that carries a packet, followed
/// by any bytes, is read as that packet, and reading goes on behind it.
pub proof fn lemma_frame_of_parses(
    key: Option<Seq<u8>>,
    bytes: Seq<u8>,
    packet: PacketView,
    more: Seq<u8>,
)
    requires
        frame_of(key, bytes, packet),
    ensures
        parse_frames(key, bytes + more) == after_packets(seq![packet], parse_frames(key, more)),
{
    let payload = choose|payload: Seq<u8>|
        {
            &&& bytes == #[trigger] frame(payload)
            &&& 0 < payload.len() <= u32::MAX
            &&& decoded_payload(key, payload) == Ok::<PacketView, DecodeError>(packet)
        };
    lemma_frame_parses(key, payload, packet, more);
}

/// Round trip: a buffer that holds one frame and nothing else gives the
/// frame's packet and keeps nothing back.
pub proof fn lemma_frame_round_trip(key: Option<Seq<u8>>, bytes: Seq<u8>, packet: PacketView)
    requires
        frame_of(key, bytes, packet),
    ensures
        parse_frames(key, bytes) == Ok::<Frames, DecodeError>(
            Frames { packets: seq![packet], rest: Seq::empty() },
        ),
{
    lemma_frame_of_parses(key, bytes, packet, Seq::empty());
    assert(bytes + Seq::<u8>::empty() =~= bytes);
    assert(parse_varint(Seq::<u8>::empty(), 5, 15) == VarintParse::Incomplete);
    assert(seq![packet] + Seq::<PacketView>::empty() =~= seq![packet]);
}

/// A frame of length zero is passed over: no packet, no error.
pub proof fn lemma_zero_length_frame(key: Option<Seq<u8>>, more: Seq<u8>)
    ensures
        parse_frames(key, seq![0u8] + more) == parse_frames(key, more),
        parse_frames(key, seq![0u8]) == Ok::<Frames, DecodeError>(
            Frames { packets: Seq::empty(), rest: Seq::empty() },
        ),
{
    let buf = seq![0u8] + more;
    assert(buf[0] == 0u8);
    assert(next_frame(key, buf) == NextFrame::Empty { len: 1 });
    assert(buf.skip(1) =~= more);
    let alone = seq![0u8];
    assert(alone[0] == 0u8);
    assert(next_frame(key, alone) == NextFrame::Empty { len: 1 });
    assert(alone.skip(1) =~= Seq::<u8>::empty());
    assert(next_frame(key, Seq::<u8>::empty()) == NextFrame::Partial);
    assert(parse_frames(key, Seq::<u8>::empty()) == Ok::<Frames, DecodeError>(
        Frames { packets: Seq::empty(), rest: Seq::empty() },
    ));
}

/// A whole, empty or broken frame at the front of a buffer stays what it is
/// when bytes are added behind the buffer.
pub proof fn lemma_next_frame_extend(key: Option<Seq<u8>>, buf: Seq<u8>, more: Seq<u8>)
    requires
        next_frame(key, buf) != NextFrame::Partial,
    ensures
        next_frame(key, buf + more) == next_frame(key, buf),
{
    lemma_parse_varint_extend(buf, more, 5, 15);
    lemma_parse_varint_bounds(buf, 5, 15);
    if let VarintParse::Value { value: length, len: prefix } = parse_varint(buf, 5, 15) {
        if length > 0 {
            assert((buf + more).subrange(prefix as int, (prefix + length) as int) =~= buf.subrange(
                prefix as int,
                (prefix + length) as int,
            ));
        }
    }
}

/// Frames do not depend on how the stream was cut. Where reading `buf`
/// gives packets and keeps a rest, reading `buf` with `more` behind it
/// gives the same packets, and then what reading the rest with `more`
/// behind it gives. Where reading `buf` fails, so does reading the longer
/// buffer, with the same error.
pub proof fn lemma_parse_frames_extend(key: Option<Seq<u8>>, buf: Seq<u8>, more: Seq<u8>)
    ensures
        parse_frames(key, buf + more) == match parse_frames(key, buf) {
            Ok(frames) => after_packets(frames.packets, parse_frames(key, frames.rest + more)),
            Err(e) => Err(e),
        },
    decreases buf.len(),
{
    lemma_next_frame_len(key, buf);
    match next_frame(key, buf) {
        NextFrame::Partial => {
            lemma_after_no_packets(parse_frames(key, buf + more));
        },
        NextFrame::Broken(e) => {
            lemma_next_frame_extend(key, buf, more);
        },
        NextFrame::Empty { len } => {
            lemma_next_frame_extend(key, buf, more);
            assert((buf + more).skip(len as int) =~= buf.skip(len as int) + more);
            lemma_parse_frames_extend(key, buf.skip(len as int), more);
        },
        NextFrame::Whole { packet, len } => {
            lemma_next_frame_extend(key, buf, more);
            assert((buf + more).skip(len as int) =~= buf.skip(len as int) + more);
            lemma_parse_frames_extend(key, buf.skip(len as int), more);
            if let Ok(frames) = parse_frames(key, buf.skip(len as int)) {
                lemma_after_packets_twice(
                    seq![packet],
                    frames.packets,
                    parse_frames(key, frames.rest + more),
                );
            }
        },
    }
}

/// The chunks of a stream, one behind the other.
pub open spec fn joined(chunks: Seq<Seq<u8>>) -> Seq<u8>
    decreases chunks.len(),
{
    if chunks.len() == 0 {
        Seq::empty()
    } else {
        chunks[0] + joined(chunks.skip(1))
    }
}

/// What a codec that holds `buffer` hands out in all when it reads `chunks`
/// one after the other, and what it holds in the end. An error at one chunk
/// is the result.
pub open spec fn read_chunks(key: Option<Seq<u8>>, buffer: Seq<u8>, chunks: Seq<Seq<u8>>) -> Result<
    Frames,
    DecodeError,
>
    decreases chunks.len(),
{
    if chunks.len() == 0 {
        Ok(Frames { packets: Seq::empty(), rest: buffer })
    } else {
        match parse_frames(key, buffer + chunks[0]) {
            Ok(frames) => after_packets(
                frames.packets,
                read_chunks(key, frames.rest, chunks.skip(1)),
            ),
            Err(e) => Err(e),
        }
    }
}

/// Framing resilience: however a stream is cut into chunks, reading the
/// chunks one after the other gives what reading the whole stream at once
/// gives.
pub proof fn lemma_read_chunks(key: Option<Seq<u8>>, buffer: Seq<u8>, chunks: Seq<Seq<u8>>)
    requires
        chunks.len() >= 1,
    ensures
        read_chunks(key, buffer, chunks) == parse_frames(key, buffer + joined(chunks)),
    decreases chunks.len(),
{
    let first = chunks[0];
    let others = chunks.skip(1);
    assert(buffer + joined(chunks) =~= (buffer + first) + joined(others));
    lemma_parse_frames_extend(key, buffer + first, joined(others));
    if others.len() == 0 {
        assert(joined(others) =~= Seq::<u8>::empty());
        assert((buffer + first) + joined(others) =~= buffer + first);
        if let Ok(frames) = parse_frames(key, buffer + first) {
            assert(read_chunks(key, frames.rest, others) == Ok::<Frames, DecodeError>(
                Frames { packets: Seq::empty(), rest: frames.rest },
            ));
            assert(frames.packets + Seq::<PacketView>::empty() =~= frames.packets);
        }
    } else {
        if let Ok(frames) = parse_frames(key, buffer + first) {
            lemma_read_chunks(key, frames.rest, others);
        }
    }
}

/// A strict prefix of a frame is a frame that has not arrived in full.
pub proof fn lemma_frame_prefix(key: Option<Seq<u8>>, payload: Seq<u8>, k: int)
    requires
        0 < payload.len() <= u32::MAX,
        0 <= k < frame(payload).len(),
    ensures
        parse_frames(key, frame(payload).take(k)) == Ok::<Frames, DecodeError>(
            Frames { packets: Seq::empty(), rest: frame(payload).take(k) },
        ),
{
    let prefix = varint_bytes(payload.len());
    let part = frame(payload).take(k);
    lemma_capacity_values();
    if k < prefix.len() {
        assert(part =~= prefix.take(k));
        lemma_parse_varint_prefix(payload.len(), k, 5, 15);
    } else {
        assert(part =~= prefix + payload.take(k - prefix.len()));
        lemma_parse_varint_bytes(payload.len(), payload.take(k - prefix.len()), 5, 15);
    }
}

/// A strict prefix of a frame that carries a packet holds no packet yet.
pub proof fn lemma_frame_of_prefix(
    key: Option<Seq<u8>>,
    bytes: Seq<u8>,
    packet: PacketView,
    k: int,
)
    requires
        frame_of(key, bytes, packet),
        0 <= k < bytes.len(),
    ensures
        parse_frames(key, bytes.take(k)) == Ok::<Frames, DecodeError>(
            Frames { packets: Seq::empty(), rest: bytes.take(k) },
        ),
{
    let payload = choose|payload: Seq<u8>|
        {
            &&& bytes == #[trigger] frame(payload)
            &&& 0 < payload.len() <= u32::MAX
            &&& decoded_payload(key, payload) == Ok::<PacketView, DecodeError>(packet)
        };
    lemma_frame_prefix(key, payload, k);
}

/// Two frames, one behind the other, hold their two packets and nothing
/// else.
pub proof fn lemma_two_frames_whole(
    key: Option<Seq<u8>>,
    first: Seq<u8>,
    first_packet: PacketView,
    second: Seq<u8>,
    second_packet: PacketView,
)
    requires
        frame_of(key, first, first_packet),
        frame_of(key, second, second_packet),
    ensures
        parse_frames(key, first + second) == Ok::<Frames, DecodeError>(
            Frames { packets: seq![first_packet, second_packet], rest: Seq::empty() },
        ),
{
    lemma_frame_of_parses(key, first, first_packet, second);
    lemma_frame_round_trip(key, second, second_packet);
    assert(seq![first_packet] + seq![second_packet] =~= seq![first_packet, second_packet]);
}

/// The number of whole frames among the first `k` bytes of two frames.
pub open spec fn whole_frames(first_len: nat, second_len: nat, k: int) -> nat {
    if k < first_len {
        0
    } else if k < first_len + second_len {
        1
    } else {
        2
    }
}

/// The first `k` bytes of two frames hold the packets of the frames that
/// are whole among them, in order.
pub proof fn lemma_two_frames_head(
    key: Option<Seq<u8>>,
    first: Seq<u8>,
    first_packet: PacketView,
    second: Seq<u8>,
    second_packet: PacketView,
    k: int,
)
    requires
        frame_of(key, first, first_packet),
        frame_of(key, second, second_packet),
        0 <= k <= first.len() + second.len(),
    ensures
        parse_frames(key, (first + second).take(k)) matches Ok(early) && early.packets
            == seq![first_packet, second_packet].take(
            whole_frames(first.len(), second.len(), k) as int,
        ),
{
    let stream = first + second;
    let both = seq![first_packet, second_packet];
    let head = stream.take(k);
    let none = Seq::<PacketView>::empty();
    if k < first.len() {
        assert(head =~= first.take(k));
        lemma_frame_of_prefix(key, first, first_packet, k);
        assert(none =~= both.take(0));
    } else if k < stream.len() {
        let part = second.take(k - first.len());
        assert(head =~= first + part);
        lemma_frame_of_parses(key, first, first_packet, part);
        lemma_frame_of_prefix(key, second, second_packet, k - first.len());
        assert(seq![first_packet] + none =~= both.take(1));
    } else {
        assert(head =~= stream);
        lemma_two_frames_whole(key, first, first_packet, second, second_packet);
        assert(both =~= both.take(2));
    }
}

/// Two frames cut at any byte: reading the first piece gives none, one or
/// both of the packets, in order, and both only where the piece is the
/// whole stream; reading the second piece then gives the others and keeps
/// nothing back.
pub proof fn lemma_two_frames_split(
    key: Option<Seq<u8>>,
    first: Seq<u8>,
    first_packet: PacketView,
    second: Seq<u8>,
    second_packet: PacketView,
    k: int,
)
    requires
        frame_of(key, first, first_packet),
        frame_of(key, second, second_packet),
        0 <= k <= first.len() + second.len(),
    ensures
        ({
            let stream = first + second;
            let both = seq![first_packet, second_packet];
            &&& parse_frames(key, stream.take(k)) matches Ok(early)
            &&& parse_frames(key, early.rest + stream.skip(k)) matches Ok(late)
            &&& early.packets + late.packets == both
            &&& late.rest == Seq::<u8>::empty()
            &&& early.packets == both.take(early.packets.len() as int)
            &&& k < stream.len() ==> early.packets.len() < 2
        }),
{
    let stream = first + second;
    let both = seq![first_packet, second_packet];
    let head = stream.take(k);
    let tail = stream.skip(k);
    lemma_two_frames_whole(key, first, first_packet, second, second_packet);
    lemma_two_frames_head(key, first, first_packet, second, second_packet, k);
    assert(head + tail =~= stream);
    lemma_parse_frames_extend(key, head, tail);
    let early = parse_frames(key, head)->Ok_0;
    let late = parse_frames(key, early.rest + tail)->Ok_0;
    assert(early.packets + late.packets =~= both);
}

} // verus!
