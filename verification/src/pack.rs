//! Length-prefixed packets: each message travels as the little-endian `u64`
//! byte length of its UTF-8 text, then the text. The reader keeps what has
//! arrived in a `bytes::BytesMut` and cuts whole packets off its front.
use bytes::{Buf, BufMut, BytesMut};
use vstd::bytes::*;
use vstd::prelude::*;
use vstd::slice::slice_to_vec;
use vstd::utf8::*;

verus! {

/// The growable byte buffer of the `bytes` crate, carried through opaquely.
#[verifier::external_type_specification]
#[verifier::external_body]
pub struct ExBytesMut(BytesMut);

/// The bytes that a `BytesMut` holds, from its front to its end.
pub uninterp spec fn bytes_mut_contents(b: BytesMut) -> Seq<u8>;

/// Calls `BytesMut::new`: an empty buffer.
#[verifier::external_body]
fn bytes_mut_new() -> (res: BytesMut)
    ensures
        bytes_mut_contents(res) == Seq::<u8>::empty(),
{
    BytesMut::new()
}

/// Calls `BytesMut::len`: the number of bytes held.
#[verifier::external_body]
fn bytes_mut_len(b: &BytesMut) -> (res: usize)
    ensures
        res == bytes_mut_contents(*b).len(),
{
    b.len()
}

/// Calls `BytesMut::extend_from_slice` (what `put_slice` does): appends the
/// bytes of `s`. A length past `isize::MAX`, where growing the buffer panics,
/// is ruled out; that the allocator can provide the memory is not stated.
#[verifier::external_body]
fn bytes_mut_put_slice(b: &mut BytesMut, s: &[u8])
    requires
        bytes_mut_contents(*old(b)).len() + s@.len() <= isize::MAX,
    ensures
        bytes_mut_contents(*final(b)) == bytes_mut_contents(*old(b)) + s@,
{
    b.extend_from_slice(s)
}

/// Calls `BufMut::put_u64_le`: appends the eight little-endian bytes of `n`.
#[verifier::external_body]
fn bytes_mut_put_u64_le(b: &mut BytesMut, n: u64)
    requires
        bytes_mut_contents(*old(b)).len() + 8 <= isize::MAX,
    ensures
        bytes_mut_contents(*final(b)) == bytes_mut_contents(*old(b)) + spec_u64_to_le_bytes(n),
{
    b.put_u64_le(n)
}

/// Calls `Buf::advance`: drops the first `cnt` bytes (it panics past the end).
#[verifier::external_body]
fn bytes_mut_advance(b: &mut BytesMut, cnt: usize)
    requires
        cnt <= bytes_mut_contents(*old(b)).len(),
    ensures
        bytes_mut_contents(*final(b)) == bytes_mut_contents(*old(b)).skip(cnt as int),
{
    b.advance(cnt)
}

/// Calls `BytesMut::split_to`: hands back the first `at` bytes and keeps the
/// rest (it panics past the end).
#[verifier::external_body]
fn bytes_mut_split_to(b: &mut BytesMut, at: usize) -> (res: BytesMut)
    requires
        at <= bytes_mut_contents(*old(b)).len(),
    ensures
        bytes_mut_contents(res) == bytes_mut_contents(*old(b)).take(at as int),
        bytes_mut_contents(*final(b)) == bytes_mut_contents(*old(b)).skip(at as int),
{
    b.split_to(at)
}

/// Calls `<BytesMut as Deref>::deref`: the held bytes as a slice.
#[verifier::external_body]
fn bytes_mut_as_slice(b: &BytesMut) -> (res: &[u8])
    ensures
        res@ == bytes_mut_contents(*b),
{
    &b[..]
}

/// Calls `<BytesMut as Clone>::clone`: a new buffer with the same bytes.
#[verifier::external_body]
fn bytes_mut_clone(b: &BytesMut) -> (res: BytesMut)
    ensures
        bytes_mut_contents(res) == bytes_mut_contents(*b),
{
    b.clone()
}

/// Calls `Buf::get_u64_le` on a slice: the little-endian value of its first
/// eight bytes (it panics on fewer).
#[verifier::external_body]
fn slice_get_u64_le(s: &[u8]) -> (res: u64)
    requires
        s@.len() >= 8,
    ensures
        res == spec_u64_from_le_bytes(s@.take(8)),
{
    let mut cursor = s;
    cursor.get_u64_le()
}

/// The number of bytes of the length field in front of each packet.
pub const HEAD_LEN: usize = 8;

/// The body length that the packet at the front of `buf` announces.
pub open spec fn announced_len(buf: Seq<u8>) -> int {
    spec_u64_from_le_bytes(buf.take(8)) as int
}

/// The packet at the front of `buf`, when it has arrived whole: its body and
/// what follows it.
pub open spec fn next_frame(buf: Seq<u8>) -> Option<(Seq<u8>, Seq<u8>)> {
    if buf.len() >= 8 && buf.len() >= announced_len(buf) + 8 {
        Some((buf.subrange(8, announced_len(buf) + 8), buf.skip(announced_len(buf) + 8)))
    } else {
        None
    }
}

/// The bytes that carry the message `m`: the length of its UTF-8 text as a
/// little-endian `u64`, then the text.
pub open spec fn packet_bytes(m: Seq<char>) -> Seq<u8> {
    spec_u64_to_le_bytes(encode_utf8(m).len() as u64) + encode_utf8(m)
}

/// Why a packet that arrived whole could not be read.
#[derive(Debug, PartialEq, Eq, Structural)]
pub enum PacketError {
    /// Its body is not UTF-8 text.
    InvalidUtf8,
}

/// Collects the bytes of a connection and cuts the packets off their front.
pub struct PacketReader {
    buf: BytesMut,
}

impl View for PacketReader {
    type V = Seq<u8>;

    /// The bytes that arrived and were not yet read as packets.
    closed spec fn view(&self) -> Seq<u8> {
        bytes_mut_contents(self.buf)
    }
}

impl PacketReader {
    /// A reader that holds no bytes yet.
    pub fn new() -> (res: Self)
        ensures
            res@ == Seq::<u8>::empty(),
    {
        PacketReader { buf: bytes_mut_new() }
    }

    /// Takes in bytes that arrived from the connection.
    pub fn push(&mut self, data: &[u8])
        requires
            old(self)@.len() + data@.len() <= isize::MAX,
        ensures
            final(self)@ == old(self)@ + data@,
    {
        bytes_mut_put_slice(&mut self.buf, data);
    }

    /// Cuts the next packet off the front: `Ok(None)` while it has not
    /// arrived whole, which leaves the bytes as they are; else its body goes,
    /// and comes back as text, or as `InvalidUtf8` when it is not UTF-8.
    pub fn read(&mut self) -> (res: Result<Option<String>, PacketError>)
        ensures
            match next_frame(old(self)@) {
                None => res == Ok::<Option<String>, PacketError>(None) && final(self)@ == old(self)@,
                Some((body, rest)) => {
                    &&& final(self)@ == rest
                    &&& valid_utf8(body) ==> (res matches Ok(Some(s)) && s@ == decode_utf8(body))
                    &&& !valid_utf8(body) ==> res == Err::<Option<String>, PacketError>(
                        PacketError::InvalidUtf8,
                    )
                },
            },
    {
        let ghost old_buf = self@;
        let len = bytes_mut_len(&self.buf);
        if len < HEAD_LEN {
            return Ok(None);
        }
        let size = slice_get_u64_le(bytes_mut_as_slice(&self.buf));
        let avail = (len - HEAD_LEN) as u64;
        if avail < size {
            return Ok(None);
        }
        let size = size as usize;
        bytes_mut_advance(&mut self.buf, HEAD_LEN);
        let body = bytes_mut_split_to(&mut self.buf, size);
        let bytes = slice_to_vec(bytes_mut_as_slice(&body));
        proof {
            assert(bytes@ =~= old_buf.subrange(8, announced_len(old_buf) + 8));
            assert(self@ =~= old_buf.skip(announced_len(old_buf) + 8));
        }
        match String::from_utf8(bytes) {
            Ok(s) => Ok(Some(s)),
            Err(_) => Err(PacketError::InvalidUtf8),
        }
    }

    /// A copy of the bytes that arrived and were not read as packets.
    pub fn get_buf(&mut self) -> (res: BytesMut)
        ensures
            final(self)@ == old(self)@,
            bytes_mut_contents(res) == old(self)@,
    {
        bytes_mut_clone(&self.buf)
    }
}

/// The bytes that carry the message `msg` (what `send_pack` writes).
pub fn encode_packet(msg: String) -> (res: BytesMut)
    requires
        encode_utf8(msg@).len() + 8 <= isize::MAX,
    ensures
        bytes_mut_contents(res) == packet_bytes(msg@),
{
    let bytes = msg.as_str().as_bytes();
    proof {
        lemma_auto_spec_u64_to_from_le_bytes();
    }
    let mut buf = bytes_mut_new();
    bytes_mut_put_u64_le(&mut buf, bytes.len() as u64);
    bytes_mut_put_slice(&mut buf, bytes);
    buf
}

/// A packet reads back as the message it carries, and what follows it stays.
pub proof fn lemma_packet_roundtrip(m: Seq<char>, rest: Seq<u8>)
    requires
        encode_utf8(m).len() <= u64::MAX,
    ensures
        next_frame(packet_bytes(m) + rest) == Some((encode_utf8(m), rest)),
        valid_utf8(encode_utf8(m)),
        decode_utf8(encode_utf8(m)) == m,
{
    broadcast use encode_utf8_valid_utf8, encode_utf8_decode_utf8;

    lemma_auto_spec_u64_to_from_le_bytes();
    let text = encode_utf8(m);
    let head = spec_u64_to_le_bytes(text.len() as u64);
    let buf = packet_bytes(m) + rest;
    assert(buf.take(8) =~= head);
    assert(announced_len(buf) == text.len());
    assert(buf.subrange(8, text.len() + 8int) =~= text);
    assert(buf.skip(text.len() + 8int) =~= rest);
}

/// A packet that has arrived whole stays the same when more bytes arrive
/// behind it; they only lengthen what follows it.
pub proof fn lemma_frame_extends(buf: Seq<u8>, more: Seq<u8>, body: Seq<u8>, rest: Seq<u8>)
    requires
        next_frame(buf) == Some((body, rest)),
    ensures
        next_frame(buf + more) == Some((body, rest + more)),
{
    let all = buf + more;
    assert(all.take(8) =~= buf.take(8));
    let n = announced_len(buf);
    assert(all.subrange(8, n + 8) =~= buf.subrange(8, n + 8));
    assert(all.skip(n + 8) =~= buf.skip(n + 8) + more);
}

/// While only a part of a packet has arrived, there is nothing to read.
pub proof fn lemma_partial_packet_incomplete(m: Seq<char>, k: int)
    requires
        encode_utf8(m).len() <= u64::MAX,
        0 <= k < packet_bytes(m).len(),
    ensures
        next_frame(packet_bytes(m).take(k)) is None,
{
    lemma_auto_spec_u64_to_from_le_bytes();
    let text = encode_utf8(m);
    let part = packet_bytes(m).take(k);
    if k >= 8 {
        assert(part.take(8) =~= spec_u64_to_le_bytes(text.len() as u64));
        assert(announced_len(part) == text.len());
    }
}

/// The bodies of the whole packets at the front of `buf`, in order, and the
/// bytes left behind them: what reading until nothing is whole gives.
pub open spec fn drain(buf: Seq<u8>) -> (Seq<Seq<u8>>, Seq<u8>)
    decreases buf.len(),
{
    match next_frame(buf) {
        Some((body, rest)) => {
            let (bodies, left) = drain(rest);
            (seq![body] + bodies, left)
        },
        None => (Seq::empty(), buf),
    }
}

/// The bytes of `chunks` one after another.
pub open spec fn concat_chunks(chunks: Seq<Seq<u8>>) -> Seq<u8>
    decreases chunks.len(),
{
    if chunks.len() == 0 {
        Seq::empty()
    } else {
        chunks[0] + concat_chunks(chunks.drop_first())
    }
}

/// The packets that carry `msgs`, one after another (what sending them does).
pub open spec fn packets_of(msgs: Seq<Seq<char>>) -> Seq<u8>
    decreases msgs.len(),
{
    if msgs.len() == 0 {
        Seq::empty()
    } else {
        packet_bytes(msgs[0]) + packets_of(msgs.drop_first())
    }
}

/// A reader that holds `buf` and then takes in `chunks` as they arrive,
/// reading every whole packet before it takes in the next chunk: the bodies
/// it reads, in order, and the bytes it holds at the end.
pub open spec fn read_chunks(buf: Seq<u8>, chunks: Seq<Seq<u8>>) -> (Seq<Seq<u8>>, Seq<u8>)
    decreases chunks.len(),
{
    let (bodies, left) = drain(buf);
    if chunks.len() == 0 {
        (bodies, left)
    } else {
        let (more, end) = read_chunks(left + chunks[0], chunks.drop_first());
        (bodies + more, end)
    }
}

/// Reading what has arrived, and then what arrives later, gives the same
/// bodies as reading all of it at once.
pub proof fn lemma_drain_append(buf: Seq<u8>, more: Seq<u8>)
    ensures
        drain(buf).0 + drain(drain(buf).1 + more).0 == drain(buf + more).0,
        drain(drain(buf).1 + more).1 == drain(buf + more).1,
    decreases buf.len(),
{
    match next_frame(buf) {
        Some((body, rest)) => {
            lemma_frame_extends(buf, more, body, rest);
            lemma_drain_append(rest, more);
            assert(drain(buf).0 + drain(drain(buf).1 + more).0 =~= drain(buf + more).0);
        },
        None => {
            assert(drain(buf).0 + drain(drain(buf).1 + more).0 =~= drain(buf + more).0);
        },
    }
}

/// However the bytes are cut into chunks, a reader reads the same bodies as
/// from all of them at once, and holds the same bytes at the end.
pub proof fn lemma_read_chunks_any_cut(buf: Seq<u8>, chunks: Seq<Seq<u8>>)
    ensures
        read_chunks(buf, chunks) == drain(buf + concat_chunks(chunks)),
    decreases chunks.len(),
{
    if chunks.len() == 0 {
        assert(buf + concat_chunks(chunks) =~= buf);
    } else {
        let left = drain(buf).1;
        lemma_read_chunks_any_cut(left + chunks[0], chunks.drop_first());
        lemma_drain_append(buf, chunks[0] + concat_chunks(chunks.drop_first()));
        assert(left + chunks[0] + concat_chunks(chunks.drop_first()) =~= left + (chunks[0]
            + concat_chunks(chunks.drop_first())));
        assert(buf + concat_chunks(chunks) =~= buf + (chunks[0] + concat_chunks(
            chunks.drop_first(),
        )));
    }
}

/// The packets of several messages read back as those messages' texts, in
/// order, with nothing left behind.
pub proof fn lemma_drain_packets(msgs: Seq<Seq<char>>)
    requires
        forall|i: int| 0 <= i < msgs.len() ==> encode_utf8(#[trigger] msgs[i]).len() <= u64::MAX,
    ensures
        drain(packets_of(msgs)).0 == msgs.map_values(|m: Seq<char>| encode_utf8(m)),
        drain(packets_of(msgs)).1 == Seq::<u8>::empty(),
    decreases msgs.len(),
{
    if msgs.len() == 0 {
        assert(drain(packets_of(msgs)).0 =~= msgs.map_values(|m: Seq<char>| encode_utf8(m)));
    } else {
        let tail = msgs.drop_first();
        assert forall|i: int| 0 <= i < tail.len() implies encode_utf8(#[trigger] tail[i]).len()
            <= u64::MAX by {
            assert(tail[i] == msgs[i + 1]);
        }
        lemma_drain_packets(tail);
        assert(encode_utf8(msgs[0]).len() <= u64::MAX);
        lemma_packet_roundtrip(msgs[0], packets_of(tail));
        assert(drain(packets_of(msgs)).0 =~= msgs.map_values(|m: Seq<char>| encode_utf8(m)));
    }
}

/// Messages sent one after another, whose bytes arrive cut into chunks in any
/// way, are read back whole and in order: the `i`-th body read is valid
/// UTF-8 text of the `i`-th message, and once all bytes have arrived the
/// reader holds none, so the next read finds nothing.
pub proof fn lemma_packets_in_any_chunking(msgs: Seq<Seq<char>>, chunks: Seq<Seq<u8>>)
    requires
        forall|i: int| 0 <= i < msgs.len() ==> encode_utf8(#[trigger] msgs[i]).len() <= u64::MAX,
        concat_chunks(chunks) == packets_of(msgs),
    ensures
        read_chunks(Seq::empty(), chunks).0.len() == msgs.len(),
        forall|i: int|
            0 <= i < msgs.len() ==> valid_utf8(#[trigger] read_chunks(Seq::empty(), chunks).0[i])
                && decode_utf8(read_chunks(Seq::empty(), chunks).0[i]) == msgs[i],
        read_chunks(Seq::empty(), chunks).1 == Seq::<u8>::empty(),
        next_frame(read_chunks(Seq::empty(), chunks).1) is None,
{
    broadcast use encode_utf8_valid_utf8, encode_utf8_decode_utf8;

    lemma_read_chunks_any_cut(Seq::empty(), chunks);
    assert(Seq::<u8>::empty() + concat_chunks(chunks) =~= packets_of(msgs));
    lemma_drain_packets(msgs);
}

} // verus!
