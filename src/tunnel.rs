//! The tunnel multiplexer's framing and routing: local TCP bytes travel as
//! reliable, ordered messages and local UDP datagrams as unreliable ones,
//! and inbound messages are routed back by their delivery class.
use vstd::prelude::*;
use crate::addr::PeerAddr;
use crate::bytes::{copy_bytes, slice_range};
use crate::wire::{Delivery, Message, Payload, payload_bytes};

verus! {

/// The largest number of bytes read from the local TCP connection at once,
/// and so the largest payload of a message that carries TCP bytes.
pub const CHUNK_SIZE: usize = 10;

/// The local endpoint an inbound message is bound for.
#[derive(Clone, Copy, Debug, PartialEq, Eq, Structural)]
pub enum Stream {
    Tcp,
    Udp,
}

/// The stream that messages of delivery class `d` are bound for.
pub open spec fn stream_spec(d: Delivery) -> Stream {
    match d {
        Delivery::ReliableOrdered => Stream::Tcp,
        Delivery::Unreliable => Stream::Udp,
    }
}

/// Routes an inbound message by its delivery class: reliable, ordered
/// messages to the local TCP connection, unreliable ones to the local UDP
/// endpoint.
pub fn stream_of(d: Delivery) -> (r: Stream)
    ensures
        r == stream_spec(d),
{
    match d {
        Delivery::ReliableOrdered => Stream::Tcp,
        Delivery::Unreliable => Stream::Udp,
    }
}

/// The bytes carried by `ms`, one message after another.
pub open spec fn joined(ms: Seq<Message>) -> Seq<u8>
    decreases ms.len(),
{
    if ms.len() == 0 {
        Seq::empty()
    } else {
        joined(ms.drop_last()) + payload_bytes(ms.last())
    }
}

/// The message that carries bytes read from the local TCP connection to the
/// peer at `dest`.
pub fn tcp_chunk(dest: PeerAddr, bytes: &[u8]) -> (r: Message)
    ensures
        r.dest == dest,
        r.delivery == Delivery::ReliableOrdered,
        r.payload is Bytes,
        payload_bytes(r) == bytes@,
{
    Message { dest, payload: Payload::Bytes(copy_bytes(bytes)), delivery: Delivery::ReliableOrdered }
}

/// The message that carries a datagram from the local UDP endpoint to the
/// peer at `dest`.
pub fn udp_datagram(dest: PeerAddr, bytes: &[u8]) -> (r: Message)
    ensures
        r.dest == dest,
        r.delivery == Delivery::Unreliable,
        r.payload is Bytes,
        payload_bytes(r) == bytes@,
{
    Message { dest, payload: Payload::Bytes(copy_bytes(bytes)), delivery: Delivery::Unreliable }
}

/// Splits bytes from the local TCP connection into messages to `dest` of at
/// most `chunk_size` bytes each, every one reliable and ordered; together
/// they carry exactly `data`, in order.
pub fn tcp_messages(dest: PeerAddr, data: &[u8], chunk_size: usize) -> (r: Vec<Message>)
    requires
        chunk_size > 0,
    ensures
        joined(r@) == data@,
        r@.len() == (data@.len() + chunk_size - 1) / (chunk_size as int),
        forall|i: int|
            0 <= i < r@.len() ==> {
                &&& (#[trigger] r@[i]).dest == dest
                &&& r@[i].delivery == Delivery::ReliableOrdered
                &&& r@[i].payload is Bytes
                &&& 0 < payload_bytes(r@[i]).len() <= chunk_size
            },
        forall|i: int| 0 <= i < r@.len() - 1 ==> payload_bytes(#[trigger] r@[i]).len() == chunk_size,
{
    let mut r: Vec<Message> = Vec::new();
    let mut start: usize = 0;
    proof {
        let c = chunk_size as int;
        assert((c - 1) / c == 0) by (nonlinear_arith)
            requires
                c > 0,
        ;
    }
    while start < data.len()
        invariant
            chunk_size > 0,
            start <= data@.len(),
            joined(r@) == data@.subrange(0, start as int),
            start < data@.len() ==> start == r@.len() * chunk_size,
            start == data@.len() ==> r@.len() == (data@.len() + chunk_size - 1) / (
            chunk_size as int),
            forall|i: int|
                0 <= i < r@.len() ==> {
                    &&& (#[trigger] r@[i]).dest == dest
                    &&& r@[i].delivery == Delivery::ReliableOrdered
                    &&& r@[i].payload is Bytes
                    &&& 0 < payload_bytes(r@[i]).len() <= chunk_size
                },
            start < data@.len() ==> forall|i: int|
                0 <= i < r@.len() ==> payload_bytes(#[trigger] r@[i]).len() == chunk_size,
            forall|i: int|
                0 <= i < r@.len() - 1 ==> payload_bytes(#[trigger] r@[i]).len() == chunk_size,
        decreases data@.len() - start,
    {
        let left = data.len() - start;
        let n = if left < chunk_size {
            left
        } else {
            chunk_size
        };
        let end = start + n;
        let ghost before = r@;
        let piece = slice_range(data, start, end);
        r.push(tcp_chunk(dest, piece.as_slice()));
        proof {
            assert(r@.drop_last() =~= before);
            assert(data@.subrange(0, end as int) =~= data@.subrange(0, start as int)
                + data@.subrange(start as int, end as int));
            let k = before.len() as int;
            assert(start == k * chunk_size);
            if end < data@.len() {
                assert(end == (k + 1) * chunk_size) by (nonlinear_arith)
                    requires
                        start == k * chunk_size,
                        end == start + chunk_size,
                ;
            } else {
                let c = chunk_size as int;
                let d = data@.len() as int;
                assert((d + c - 1) / c == k + 1) by (nonlinear_arith)
                    requires
                        start == k * c,
                        0 < d - start <= c,
                        c > 0,
                ;
            }
        }
        start = end;
    }
    proof {
        assert(data@.subrange(0, data@.len() as int) =~= data@);
    }
    r
}

/// Bytes framed piece by piece give, joined, the pieces one after another:
/// a stream read in several reads arrives as the reads concatenated.
pub proof fn lemma_joined_append(a: Seq<Message>, b: Seq<Message>)
    ensures
        joined(a + b) == joined(a) + joined(b),
    decreases b.len(),
{
    if b.len() == 0 {
        assert(a + b =~= a);
        assert(joined(b) =~= Seq::<u8>::empty());
        assert(joined(a) + joined(b) =~= joined(a));
    } else {
        assert((a + b).drop_last() =~= a + b.drop_last());
        assert((a + b).last() == b.last());
        lemma_joined_append(a, b.drop_last());
        assert(joined(a + b) =~= joined(a) + joined(b));
    }
}

/// Bytes read from the local TCP connection in two reads, `first` then
/// `second`, reach the peer's TCP stream whole and in order: every message
/// they are framed in is routed to TCP, and the payloads, written one after
/// another, give back the bytes of both reads in order.
pub proof fn lemma_tcp_bytes_preserved(
    ms1: Seq<Message>,
    ms2: Seq<Message>,
    first: Seq<u8>,
    second: Seq<u8>,
)
    requires
        joined(ms1) == first,
        joined(ms2) == second,
        forall|i: int|
            0 <= i < ms1.len() ==> (#[trigger] ms1[i]).delivery == Delivery::ReliableOrdered,
        forall|i: int|
            0 <= i < ms2.len() ==> (#[trigger] ms2[i]).delivery == Delivery::ReliableOrdered,
    ensures
        forall|i: int|
            0 <= i < (ms1 + ms2).len() ==> stream_spec((#[trigger] (ms1 + ms2)[i]).delivery)
                == Stream::Tcp,
        joined(ms1 + ms2) == first + second,
{
    lemma_joined_append(ms1, ms2);
    assert forall|i: int| 0 <= i < (ms1 + ms2).len() implies stream_spec(
        (#[trigger] (ms1 + ms2)[i]).delivery,
    ) == Stream::Tcp by {
        if i < ms1.len() {
            assert((ms1 + ms2)[i] == ms1[i]);
        } else {
            assert((ms1 + ms2)[i] == ms2[i - ms1.len()]);
        }
    }
}

} // verus!
