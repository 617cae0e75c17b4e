//! Forward error correction: blocks of `k` framed packets are protected by
//! `r` parity shards, and a block with at least `k` shards left gives its
//! lost packets back.
use super::buffer::{bytes_as_slice, bytes_from_vec, bytes_seq};
use super::codec::{
    codec_accepts, codec_encode, codec_reconstruct, encodable, erasure_of, geometry_ok, parity_of,
    present_count, rebuilt, reconstructible, rows, slots,
};
use super::protocol::{
    frame, lemma_parse_frame_with_tail, parse_frame, FecPacket, FecPacketView, FrameFault, Packet,
    PacketType, PacketView, HEADER_SIZE, MAX_PAYLOAD,
};
use super::NetworkError;
use crate::clock::{clock_start, elapsed_ms};
use bytes::Bytes;
use std::time::Instant;
use vstd::prelude::*;

verus! {

/// `s` filled up with zero bytes to length `n`; unchanged if it is that long.
pub open spec fn pad(s: Seq<u8>, n: nat) -> Seq<u8> {
    if s.len() >= n {
        s
    } else {
        s + Seq::new((n - s.len()) as nat, |i: int| 0u8)
    }
}

/// The length of the longest of some byte strings, 0 for none.
pub open spec fn max_len(s: Seq<Seq<u8>>) -> nat
    decreases s.len(),
{
    if s.len() == 0 {
        0
    } else if s.last().len() > max_len(s.drop_last()) {
        s.last().len()
    } else {
        max_len(s.drop_last())
    }
}

/// Each of some byte strings padded to length `n`.
pub open spec fn pad_all(s: Seq<Seq<u8>>, n: nat) -> Seq<Seq<u8>> {
    Seq::new(s.len(), |i: int| pad(s[i], n))
}

/// The serialised forms of some packets.
pub open spec fn frames(ps: Seq<PacketView>) -> Seq<Seq<u8>> {
    Seq::new(ps.len(), |i: int| frame(ps[i]))
}

/// The data shards of a block: its packets, serialised and padded to the
/// length of the longest.
pub open spec fn data_shards_of(ps: Seq<PacketView>) -> Seq<Seq<u8>> {
    pad_all(frames(ps), max_len(frames(ps)))
}

/// The values of some packets.
pub open spec fn packet_views(v: Seq<Packet>) -> Seq<PacketView> {
    Seq::new(v.len(), |i: int| v[i]@)
}

/// The values of some parity packets.
pub open spec fn fec_views(v: Seq<FecPacket>) -> Seq<FecPacketView> {
    Seq::new(v.len(), |i: int| v[i]@)
}

/// The parity packets of the block `ps`, numbered `k`, `k + 1`, and so on.
pub open spec fn parity_packets(block_id: u32, k: nat, r: nat, ps: Seq<PacketView>) -> Seq<
    FecPacketView,
> {
    Seq::new(
        r,
        |i: int|
            FecPacketView {
                block_id,
                index: (k + i) as u8,
                data_count: k as u8,
                parity_count: r as u8,
                data: parity_of(k, r, data_shards_of(ps))[i],
            },
    )
}

/// The packet that fills a block which is flushed before it is full.
pub open spec fn filler() -> PacketView {
    PacketView { kind: PacketType::Video, pts: 0, seq: 0, data: Seq::empty() }
}

/// The block id after `id`, wrapping to zero.
pub open spec fn next_block_id(id: u32) -> u32 {
    if id == u32::MAX {
        0
    } else {
        (id + 1) as u32
    }
}

/// An encoder as a mathematical value.
pub struct EncoderView {
    pub k: nat,
    pub r: nat,
    pub block_id: u32,
    pub pending: Seq<PacketView>,
}

/// What adding a packet does: the block grows, and when it is full its
/// parity packets come out, the block is emptied and the block id advances.
pub open spec fn encode_step(e: EncoderView, p: PacketView) -> (EncoderView, Seq<FecPacketView>) {
    let pending = e.pending.push(p);
    if pending.len() >= e.k {
        (
            EncoderView { block_id: next_block_id(e.block_id), pending: Seq::empty(), ..e },
            parity_packets(e.block_id, e.k, e.r, pending),
        )
    } else {
        (EncoderView { pending, ..e }, Seq::empty())
    }
}

/// What flushing does: nothing to an empty block; any other is filled up
/// with empty video packets and encoded like a full one.
pub open spec fn flush_step(e: EncoderView) -> (EncoderView, Seq<FecPacketView>) {
    if e.pending.len() == 0 {
        (e, Seq::empty())
    } else {
        let filled = e.pending + Seq::new((e.k - e.pending.len()) as nat, |i: int| filler());
        (
            EncoderView { block_id: next_block_id(e.block_id), pending: Seq::empty(), ..e },
            parity_packets(e.block_id, e.k, e.r, filled),
        )
    }
}

/// The longest string bounds every string, and appending one string
/// updates the maximum by one comparison.
pub proof fn lemma_max_len(s: Seq<Seq<u8>>, i: int)
    requires
        0 <= i < s.len(),
    ensures
        s[i].len() <= max_len(s),
        max_len(s.subrange(0, i + 1)) == if s[i].len() > max_len(s.subrange(0, i)) {
            s[i].len()
        } else {
            max_len(s.subrange(0, i))
        },
    decreases s.len(),
{
    assert(s.subrange(0, i + 1).drop_last() =~= s.subrange(0, i));
    if i < s.len() - 1 {
        lemma_max_len(s.drop_last(), i);
    }
}

/// Appends zero bytes until `v` is `n` long.
fn pad_to(v: &mut Vec<u8>, n: usize)
    ensures
        final(v)@ == pad(old(v)@, n as nat),
{
    if v.len() >= n {
        return ;
    }
    let ghost start = v@;
    while v.len() < n
        invariant
            start.len() <= v@.len() <= n,
            v@ =~= start + Seq::new((v@.len() - start.len()) as nat, |i: int| 0u8),
        decreases n - v@.len(),
    {
        v.push(0u8);
    }
    assert(v@ =~= pad(start, n as nat));
}

/// FEC encoder: collects packets into blocks and emits the parity packets
/// of each full block.
#[derive(Debug)]
pub struct FecEncoder {
    data_shards: usize,
    parity_shards: usize,
    current_block_id: u32,
    block_buffer: Vec<Packet>,
}

impl View for FecEncoder {
    type V = EncoderView;

    closed spec fn view(&self) -> EncoderView {
        EncoderView {
            k: self.data_shards as nat,
            r: self.parity_shards as nat,
            block_id: self.current_block_id,
            pending: packet_views(self.block_buffer@),
        }
    }
}

impl FecEncoder {
    /// The encoder's invariant: a geometry that the code exists for, a
    /// block that is not yet full, payloads within the packet limit.
    pub closed spec fn wf(&self) -> bool {
        &&& geometry_ok(self.data_shards as nat, self.parity_shards as nat)
        &&& self.block_buffer@.len() < self.data_shards
        &&& forall|i: int|
            0 <= i < self.block_buffer@.len() ==> (#[trigger] self.block_buffer@[i])@.data.len()
                <= MAX_PAYLOAD
    }

    /// What `wf` says of the public model.
    pub proof fn lemma_wf(&self)
        requires
            self.wf(),
        ensures
            geometry_ok(self@.k, self@.r),
            self@.pending.len() < self@.k,
            forall|i: int|
                0 <= i < self@.pending.len() ==> (#[trigger] self@.pending[i]).data.len()
                    <= MAX_PAYLOAD,
    {
    }

    /// Create a new FEC encoder for blocks of `data_shards` packets with
    /// `parity_shards` parity packets each. Fails with a protocol error
    /// unless both are at least 1 and their sum is at most 256.
    pub fn new(data_shards: usize, parity_shards: usize) -> (r: Result<FecEncoder, NetworkError>)
        ensures
            r is Ok <==> data_shards >= 1 && parity_shards >= 1 && data_shards + parity_shards
                <= 256,
            r is Ok ==> r.unwrap().wf() && r.unwrap()@ == (EncoderView {
                k: data_shards as nat,
                r: parity_shards as nat,
                block_id: 0,
                pending: Seq::empty(),
            }),
            r is Err ==> r.unwrap_err() is Protocol,
    {
        if data_shards > 256 || parity_shards > 256 || !codec_accepts(data_shards, parity_shards) {
            return Err(NetworkError::Protocol("invalid FEC geometry".to_owned()));
        }
        let e = FecEncoder {
            data_shards,
            parity_shards,
            current_block_id: 0,
            block_buffer: Vec::with_capacity(data_shards),
        };
        assert(e@.pending =~= Seq::empty());
        Ok(e)
    }

    /// Add a packet to the encoder. Returns the parity packets of the block
    /// if the packet completes it, and nothing otherwise.
    pub fn encode(&mut self, packet: Packet) -> (out: Vec<FecPacket>)
        requires
            old(self).wf(),
            packet@.data.len() <= MAX_PAYLOAD,
        ensures
            final(self).wf(),
            (final(self)@, fec_views(out@)) == encode_step(old(self)@, packet@),
            out@.len() > 0 ==> encodable(
                old(self)@.k,
                old(self)@.r,
                encoded_block(old(self)@.k, old(self)@.r, old(self)@.pending.push(packet@)),
            ),
    {
        let ghost before = self@;
        self.block_buffer.push(packet);
        assert(packet_views(self.block_buffer@) =~= before.pending.push(packet@));
        if self.block_buffer.len() >= self.data_shards {
            let out = self.encode_block();
            self.block_buffer = Vec::new();
            self.current_block_id = if self.current_block_id == u32::MAX {
                0
            } else {
                self.current_block_id + 1
            };
            assert(packet_views(self.block_buffer@) =~= Seq::empty());
            out
        } else {
            let out: Vec<FecPacket> = Vec::new();
            assert(fec_views(out@) =~= Seq::empty());
            out
        }
    }

    /// Add a packet unless its payload is over the packet limit of 20 MiB;
    /// such a packet is refused with `None` and the encoder stays as it is.
    pub fn try_encode(&mut self, packet: Packet) -> (out: Option<Vec<FecPacket>>)
        requires
            old(self).wf(),
        ensures
            final(self).wf(),
            out is Some <==> packet@.data.len() <= MAX_PAYLOAD,
            out is Some ==> (final(self)@, fec_views(out.unwrap()@)) == encode_step(
                old(self)@,
                packet@,
            ),
            out is None ==> final(self)@ == old(self)@,
    {
        if packet.payload_len() > MAX_PAYLOAD {
            None
        } else {
            Some(self.encode(packet))
        }
    }

    /// The parity packets of the block in the buffer.
    fn encode_block(&self) -> (out: Vec<FecPacket>)
        requires
            geometry_ok(self.data_shards as nat, self.parity_shards as nat),
            self.block_buffer@.len() == self.data_shards,
            forall|i: int|
                0 <= i < self.block_buffer@.len() ==> (#[trigger] self.block_buffer@[i])@.data.len()
                    <= MAX_PAYLOAD,
        ensures
            fec_views(out@) == parity_packets(
                self.current_block_id,
                self.data_shards as nat,
                self.parity_shards as nat,
                packet_views(self.block_buffer@),
            ),
            encodable(
                self.data_shards as nat,
                self.parity_shards as nat,
                encoded_block(
                    self.data_shards as nat,
                    self.parity_shards as nat,
                    packet_views(self.block_buffer@),
                ),
            ),
    {
        let k = self.data_shards;
        let r = self.parity_shards;
        let ghost ps = packet_views(self.block_buffer@);
        let ghost fs = frames(ps);
        // Longest serialised packet of the block.
        let mut longest: usize = 0;
        let mut i: usize = 0;
        while i < k
            invariant
                0 <= i <= k,
                k == self.block_buffer@.len(),
                ps == packet_views(self.block_buffer@),
                fs == frames(ps),
                longest == max_len(fs.subrange(0, i as int)),
                longest <= HEADER_SIZE + MAX_PAYLOAD,
                i > 0 ==> longest >= HEADER_SIZE,
                forall|j: int|
                    0 <= j < self.block_buffer@.len() ==> (
                    #[trigger] self.block_buffer@[j])@.data.len() <= MAX_PAYLOAD,
            decreases k - i,
        {
            let n = HEADER_SIZE + bytes_as_slice(&self.block_buffer[i].data).len();
            proof {
                lemma_max_len(fs, i as int);
                lemma_parse_frame_with_tail(ps[i as int], Seq::empty());
                assert(self.block_buffer@[i as int]@ == ps[i as int]);
            }
            if n > longest {
                longest = n;
            }
            i = i + 1;
        }
        assert(fs.subrange(0, k as int) =~= fs);
        // Data shards, padded, then empty parity shards.
        let mut shards: Vec<Vec<u8>> = Vec::with_capacity(k + r);
        let mut i: usize = 0;
        while i < k
            invariant
                0 <= i <= k,
                k == self.block_buffer@.len(),
                ps == packet_views(self.block_buffer@),
                fs == frames(ps),
                longest == max_len(fs),
                shards@.len() == i,
                forall|j: int| 0 <= j < i ==> (#[trigger] shards@[j])@ == pad(fs[j], longest as nat),
                forall|j: int|
                    0 <= j < self.block_buffer@.len() ==> (
                    #[trigger] self.block_buffer@[j])@.data.len() <= MAX_PAYLOAD,
            decreases k - i,
        {
            assert(self.block_buffer@[i as int]@ == ps[i as int]);
            let mut f = self.block_buffer[i].serialize();
            pad_to(&mut f, longest);
            shards.push(f);
            i = i + 1;
        }
        let mut j: usize = 0;
        while j < r
            invariant
                0 <= j <= r,
                k + r <= 256,
                shards@.len() == k + j,
                fs.len() == k,
                forall|m: int| 0 <= m < k ==> (#[trigger] shards@[m])@ == pad(fs[m], longest as nat),
                forall|m: int| k <= m < k + j ==> (#[trigger] shards@[m])@.len() == longest,
            decreases r - j,
        {
            let mut z: Vec<u8> = Vec::new();
            pad_to(&mut z, longest);
            shards.push(z);
            j = j + 1;
        }
        proof {
            lemma_max_len(fs, 0);
            lemma_parse_frame_with_tail(ps[0], Seq::empty());
            assert forall|m: int| 0 <= m < k + r implies (#[trigger] rows(shards@)[m]).len()
                == longest by {
                if m < k {
                    lemma_max_len(fs, m);
                }
            }
            assert(rows(shards@).subrange(0, k as int) =~= data_shards_of(ps));
        }
        let coded = codec_encode(k, r, shards);
        let coded = coded.unwrap();
        let ghost parity = parity_of(k as nat, r as nat, data_shards_of(ps));
        proof {
            assert(rows(coded@).len() == k + r);
            assert((data_shards_of(ps) + parity).len() == data_shards_of(ps).len() + parity.len());
            assert(rows(coded@) == encoded_block(k as nat, r as nat, ps));
            assert forall|m: int| 0 <= m < k + r implies (#[trigger] rows(coded@)[m]).len()
                == rows(coded@)[0].len() by {
                assert(rows(coded@)[m] == coded@[m]@);
                assert(rows(coded@)[0] == coded@[0]@);
            }
        }
        let mut out: Vec<FecPacket> = Vec::with_capacity(r);
        let mut j: usize = 0;
        while j < r
            invariant
                0 <= j <= r,
                geometry_ok(k as nat, r as nat),
                coded@.len() == k + r,
                rows(coded@) == data_shards_of(ps) + parity,
                data_shards_of(ps).len() == k,
                parity.len() == r,
                parity == parity_of(k as nat, r as nat, data_shards_of(ps)),
                out@.len() == j,
                forall|m: int|
                    0 <= m < j ==> (#[trigger] out@[m])@ == parity_packets(
                        self.current_block_id,
                        k as nat,
                        r as nat,
                        ps,
                    )[m],
            decreases r - j,
        {
            let shard = vstd::slice::slice_to_vec(coded[k + j].as_slice());
            proof {
                assert(rows(coded@)[k + j] == coded@[k + j]@);
                assert((data_shards_of(ps) + parity)[k + j] == parity[j as int]);
                assert(shard@ =~= parity[j as int]);
            }
            let b = bytes_from_vec(shard);
            assert(bytes_seq(b) == parity[j as int]);
            let fp = FecPacket::new(self.current_block_id, (k + j) as u8, k as u8, r as u8, b);
            assert(fp@ == parity_packets(self.current_block_id, k as nat, r as nat, ps)[j as int]);
            out.push(fp);
            j = j + 1;
        }
        assert(fec_views(out@) =~= parity_packets(
            self.current_block_id,
            k as nat,
            r as nat,
            ps,
        ));
        out
    }

    /// Force encoding of the current partial block: it is filled up with
    /// empty video packets. An empty block gives nothing.
    pub fn flush(&mut self) -> (out: Vec<FecPacket>)
        requires
            old(self).wf(),
        ensures
            final(self).wf(),
            (final(self)@, fec_views(out@)) == flush_step(old(self)@),
    {
        if self.block_buffer.len() == 0 {
            let out: Vec<FecPacket> = Vec::new();
            assert(fec_views(out@) =~= Seq::empty());
            return out;
        }
        let ghost before = self@;
        while self.block_buffer.len() < self.data_shards
            invariant
                geometry_ok(self.data_shards as nat, self.parity_shards as nat),
                self.data_shards == before.k,
                self.parity_shards == before.r,
                self.current_block_id == before.block_id,
                before.pending.len() <= self.block_buffer@.len() <= self.data_shards,
                packet_views(self.block_buffer@) =~= before.pending + Seq::new(
                    (self.block_buffer@.len() - before.pending.len()) as nat,
                    |i: int| filler(),
                ),
                forall|i: int|
                    0 <= i < self.block_buffer@.len() ==> (
                    #[trigger] self.block_buffer@[i])@.data.len() <= MAX_PAYLOAD,
            decreases self.data_shards - self.block_buffer@.len(),
        {
            let empty: Vec<u8> = Vec::new();
            let ghost prev = packet_views(self.block_buffer@);
            let p = Packet::new(PacketType::Video, 0, 0, bytes_from_vec(empty));
            assert(p@.data =~= Seq::<u8>::empty());
            assert(p@ == filler());
            self.block_buffer.push(p);
            assert(packet_views(self.block_buffer@) =~= prev.push(filler()));
        }
        let out = self.encode_block();
        self.block_buffer = Vec::new();
        self.current_block_id = if self.current_block_id == u32::MAX {
            0
        } else {
            self.current_block_id + 1
        };
        assert(packet_views(self.block_buffer@) =~= Seq::empty());
        out
    }
}


/// The length of the longest shard that is present, 0 for none.
pub open spec fn max_present_len(s: Seq<Option<Seq<u8>>>) -> nat
    decreases s.len(),
{
    if s.len() == 0 {
        0
    } else if s.last() is Some && s.last().unwrap().len() > max_present_len(s.drop_last()) {
        s.last().unwrap().len()
    } else {
        max_present_len(s.drop_last())
    }
}

/// Each shard that is present padded to length `n`.
pub open spec fn pad_slots(s: Seq<Option<Seq<u8>>>, n: nat) -> Seq<Option<Seq<u8>>> {
    Seq::new(
        s.len(),
        |i: int|
            match s[i] {
                Some(b) => Some(pad(b, n)),
                None => None,
            },
    )
}

/// The packets read from the first `upto` shards of the completed block
/// `full`, for the positions whose data shard was missing and whose shard
/// parses as a packet, in the order of the positions.
pub open spec fn recovered_packets(
    data: Seq<Option<Seq<u8>>>,
    full: Seq<Seq<u8>>,
    upto: nat,
) -> Seq<PacketView>
    decreases upto,
{
    if upto == 0 {
        Seq::empty()
    } else {
        let rest = recovered_packets(data, full, (upto - 1) as nat);
        let i = upto - 1;
        if data[i] is None && parse_frame(full[i]) is Ok {
            rest.push(parse_frame(full[i]).unwrap())
        } else {
            rest
        }
    }
}

/// One block of the decoder's cache as a mathematical value.
pub struct BlockView {
    pub block_id: u32,
    pub data: Seq<Option<Seq<u8>>>,
    pub parity: Seq<Option<Seq<u8>>>,
    pub created_at: u64,
    pub recovered: bool,
}

/// The shards handed to the code for a block: all that are present, padded
/// to the length of the longest.
pub open spec fn padded_block(b: BlockView) -> Seq<Option<Seq<u8>>> {
    pad_slots(b.data + b.parity, max_present_len(b.data + b.parity))
}

/// The recovery attempt made after each insertion. A block that is already
/// recovered, or holds fewer than `k` shards, is left alone. A block with
/// all its data is marked recovered. Otherwise the code completes the block,
/// the block is marked recovered and the packets of the missing positions
/// come out; if the code refuses the shards the block stays as it is.
pub open spec fn recover(k: nat, r: nat, b: BlockView) -> (BlockView, Seq<PacketView>) {
    if b.recovered || present_count(b.data) + present_count(b.parity) < k {
        (b, Seq::empty())
    } else if present_count(b.data) == k {
        (BlockView { recovered: true, ..b }, Seq::empty())
    } else if !reconstructible(k, r, padded_block(b)) {
        (b, Seq::empty())
    } else {
        (
            BlockView { recovered: true, ..b },
            recovered_packets(b.data, rebuilt(k, r, padded_block(b)), k),
        )
    }
}

/// A decoder as a mathematical value: its geometry, the cached blocks in
/// the order in which they were first seen, and the time of the last cleanup.
pub struct DecoderView {
    pub k: nat,
    pub r: nat,
    pub blocks: Seq<BlockView>,
    pub last_cleanup: u64,
}

/// The position of the block with this id, or the number of blocks if there
/// is none.
pub open spec fn find_block(blocks: Seq<BlockView>, id: u32) -> int {
    if exists|i: int| 0 <= i < blocks.len() && (#[trigger] blocks[i]).block_id == id {
        choose|i: int| 0 <= i < blocks.len() && (#[trigger] blocks[i]).block_id == id
    } else {
        blocks.len() as int
    }
}

/// A block that has received nothing yet.
pub open spec fn fresh_block(id: u32, k: nat, r: nat, now: u64) -> BlockView {
    BlockView {
        block_id: id,
        data: Seq::new(k, |i: int| None),
        parity: Seq::new(r, |i: int| None),
        created_at: now,
        recovered: false,
    }
}

/// The cache with the block at position `i` replaced, or with the block
/// appended when `i` is past the end.
pub open spec fn put_block(blocks: Seq<BlockView>, i: int, b: BlockView) -> Seq<BlockView> {
    if 0 <= i < blocks.len() {
        blocks.update(i, b)
    } else {
        blocks.push(b)
    }
}

/// What a data shard does to the decoder. The shard goes to position
/// `seq % k` of block `seq / k`, which is created if it is not cached; a
/// recovery attempt follows. A recovered block takes no more shards.
pub open spec fn add_data_step(d: DecoderView, seq: u32, bytes: Seq<u8>, now: u64) -> (
    DecoderView,
    Seq<PacketView>,
) {
    let id = (seq as nat / d.k) as u32;
    let i = find_block(d.blocks, id);
    let b = if i < d.blocks.len() {
        d.blocks[i]
    } else {
        fresh_block(id, d.k, d.r, now)
    };
    if b.recovered {
        (d, Seq::empty())
    } else {
        let stored = BlockView { data: b.data.update((seq as nat % d.k) as int, Some(bytes)), ..b };
        let (after, out) = recover(d.k, d.r, stored);
        (DecoderView { blocks: put_block(d.blocks, i, after), ..d }, out)
    }
}

/// Whether a parity packet names the decoder's own geometry.
pub open spec fn fec_geometry_matches(d: DecoderView, f: FecPacketView) -> bool {
    f.data_count == d.k && f.parity_count == d.r
}

/// What a parity packet does to the decoder. A packet with another
/// geometry than the decoder's is refused and its block is dropped from the
/// cache. A packet whose index is a data position is refused. Otherwise the
/// shard goes to parity position `index - k` of its block, if the block has
/// such a position, and a recovery attempt follows. A recovered block takes
/// no more shards. `None` stands for a refusal.
pub open spec fn add_fec_step(d: DecoderView, f: FecPacketView, now: u64) -> (
    DecoderView,
    Option<Seq<PacketView>>,
) {
    let i = find_block(d.blocks, f.block_id);
    if !fec_geometry_matches(d, f) {
        (
            DecoderView {
                blocks: if i < d.blocks.len() {
                    d.blocks.remove(i)
                } else {
                    d.blocks
                },
                ..d
            },
            None,
        )
    } else if f.index < d.k {
        (d, None)
    } else {
        let b = if i < d.blocks.len() {
            d.blocks[i]
        } else {
            fresh_block(f.block_id, d.k, d.r, now)
        };
        if b.recovered {
            (d, Some(Seq::empty()))
        } else {
            let at = f.index - d.k;
            let stored = if at < d.r {
                BlockView { parity: b.parity.update(at, Some(f.data)), ..b }
            } else {
                b
            };
            let (after, out) = recover(d.k, d.r, stored);
            (DecoderView { blocks: put_block(d.blocks, i, after), ..d }, Some(out))
        }
    }
}

/// Milliseconds between two cleanups.
pub const CLEANUP_INTERVAL_MS: u64 = 5000;

/// Milliseconds after which a block is dropped by a cleanup.
pub const BLOCK_LIFETIME_MS: u64 = 10000;

/// Whether a block is younger than the lifetime at time `now`.
pub open spec fn block_is_young(b: BlockView, now: u64) -> bool {
    now <= b.created_at || now - b.created_at < BLOCK_LIFETIME_MS
}

/// The blocks that a cleanup at time `now` keeps, in their order.
pub open spec fn young_blocks(blocks: Seq<BlockView>, now: u64) -> Seq<BlockView>
    decreases blocks.len(),
{
    if blocks.len() == 0 {
        Seq::empty()
    } else if block_is_young(blocks.last(), now) {
        young_blocks(blocks.drop_last(), now).push(blocks.last())
    } else {
        young_blocks(blocks.drop_last(), now)
    }
}

/// What a cleanup tick does: nothing within the interval since the last
/// cleanup; after it, every block that has reached the lifetime is dropped.
pub open spec fn cleanup_step(d: DecoderView, now: u64) -> DecoderView {
    if now <= d.last_cleanup || now - d.last_cleanup < CLEANUP_INTERVAL_MS {
        d
    } else {
        DecoderView { blocks: young_blocks(d.blocks, now), last_cleanup: now, ..d }
    }
}

/// The packets of the block `ps` whose data shard is missing among the
/// first `upto` positions, in the order of the positions.
pub open spec fn lost_packets(data: Seq<Option<Seq<u8>>>, ps: Seq<PacketView>, upto: nat) -> Seq<
    PacketView,
>
    decreases upto,
{
    if upto == 0 {
        Seq::empty()
    } else {
        let rest = lost_packets(data, ps, (upto - 1) as nat);
        if data[upto - 1] is None {
            rest.push(ps[upto - 1])
        } else {
            rest
        }
    }
}

/// The encoded block of the packets `ps`: their data shards followed by
/// the parity shards.
pub open spec fn encoded_block(k: nat, r: nat, ps: Seq<PacketView>) -> Seq<Seq<u8>> {
    data_shards_of(ps) + parity_of(k, r, data_shards_of(ps))
}

/// `b` holds what is left of the encoded block of the `k` packets `ps`
/// after some shards were lost: every data shard that is present is the
/// serialised packet of its position, every parity shard that is present
/// is the parity shard of its position, and together they are at least `k`.
/// The block has not been recovered yet.
pub open spec fn remains_of(k: nat, r: nat, ps: Seq<PacketView>, b: BlockView) -> bool {
    &&& geometry_ok(k, r)
    &&& ps.len() == k
    &&& forall|i: int| 0 <= i < k ==> (#[trigger] ps[i]).data.len() <= MAX_PAYLOAD
    &&& encodable(k, r, encoded_block(k, r, ps))
    &&& b.data.len() == k
    &&& b.parity.len() == r
    &&& !b.recovered
    &&& present_count(b.data) + present_count(b.parity) >= k
    &&& forall|i: int|
        0 <= i < k && (#[trigger] b.data[i]) is Some ==> b.data[i].unwrap() == frame(ps[i])
    &&& forall|j: int|
        0 <= j < r && (#[trigger] b.parity[j]) is Some ==> b.parity[j].unwrap() == parity_of(
            k,
            r,
            data_shards_of(ps),
        )[j]
}

/// The block that a data shard lands in, with the shard in its place; a
/// recovered block is as it was.
pub open spec fn data_landing(d: DecoderView, seq: u32, bytes: Seq<u8>, now: u64) -> BlockView {
    let id = (seq as nat / d.k) as u32;
    let i = find_block(d.blocks, id);
    let b = if i < d.blocks.len() {
        d.blocks[i]
    } else {
        fresh_block(id, d.k, d.r, now)
    };
    if b.recovered {
        b
    } else {
        BlockView { data: b.data.update((seq as nat % d.k) as int, Some(bytes)), ..b }
    }
}

/// The block that a parity packet lands in, with the shard in its place
/// if the block has such a position; a recovered block is as it was.
pub open spec fn parity_landing(d: DecoderView, f: FecPacketView, now: u64) -> BlockView {
    let i = find_block(d.blocks, f.block_id);
    let b = if i < d.blocks.len() {
        d.blocks[i]
    } else {
        fresh_block(f.block_id, d.k, d.r, now)
    };
    if !b.recovered && f.index - d.k < d.r {
        BlockView { parity: b.parity.update(f.index - d.k, Some(f.data)), ..b }
    } else {
        b
    }
}

/// Padding keeps the shards that are present present.
pub proof fn lemma_pad_slots_count(s: Seq<Option<Seq<u8>>>, n: nat)
    ensures
        present_count(pad_slots(s, n)) == present_count(s),
    decreases s.len(),
{
    if s.len() > 0 {
        lemma_pad_slots_count(s.drop_last(), n);
        assert(pad_slots(s, n).drop_last() =~= pad_slots(s.drop_last(), n));
    }
}

/// A list with a shard present has a position that holds one; a list of
/// shards none longer than `bound` has no longest shard beyond it; and a
/// list in which every position is filled has nothing missing.
pub proof fn lemma_present_facts(s: Seq<Option<Seq<u8>>>, bound: nat)
    ensures
        present_count(s) > 0 ==> exists|i: int| 0 <= i < s.len() && (#[trigger] s[i]) is Some,
        (forall|i: int| 0 <= i < s.len() && (#[trigger] s[i]) is Some ==> s[i].unwrap().len()
            <= bound) ==> max_present_len(s) <= bound,
        present_count(s) <= s.len(),
        present_count(s) == s.len() ==> forall|i: int| 0 <= i < s.len() ==> (#[trigger] s[i]) is Some,
    decreases s.len(),
{
    if s.len() > 0 {
        let t = s.drop_last();
        lemma_present_facts(t, bound);
        if present_count(s) > 0 {
            if s.last() is Some {
                assert(s[s.len() - 1] is Some);
            } else {
                let i = choose|i: int| 0 <= i < t.len() && (#[trigger] t[i]) is Some;
                assert(s[i] is Some);
            }
        }
        if forall|i: int| 0 <= i < s.len() && (#[trigger] s[i]) is Some ==> s[i].unwrap().len()
            <= bound {
            assert forall|i: int| 0 <= i < t.len() && (#[trigger] t[i]) is Some implies t[i].unwrap().len()
                <= bound by {
                assert(s[i] is Some);
            }
            if s.last() is Some {
                assert(s[s.len() - 1] is Some);
            }
        }
        if present_count(s) == s.len() {
            assert forall|i: int| 0 <= i < s.len() implies (#[trigger] s[i]) is Some by {
                if i < s.len() - 1 {
                    assert(t[i] is Some);
                }
            }
        }
    }
}

/// Nothing is lost of a block whose data shards are all present.
pub proof fn lemma_nothing_lost(data: Seq<Option<Seq<u8>>>, ps: Seq<PacketView>, upto: nat)
    requires
        upto <= data.len(),
        forall|i: int| 0 <= i < data.len() ==> (#[trigger] data[i]) is Some,
    ensures
        lost_packets(data, ps, upto) == Seq::<PacketView>::empty(),
    decreases upto,
{
    if upto > 0 {
        lemma_nothing_lost(data, ps, (upto - 1) as nat);
        assert(data[upto - 1] is Some);
    }
}

/// Every shard of an encoded block has the length of the longest
/// serialised packet, which is at least a header long.
pub proof fn lemma_encoded_lengths(k: nat, r: nat, ps: Seq<PacketView>)
    requires
        geometry_ok(k, r),
        ps.len() == k,
        forall|i: int| 0 <= i < k ==> (#[trigger] ps[i]).data.len() <= MAX_PAYLOAD,
        encodable(k, r, encoded_block(k, r, ps)),
    ensures
        max_len(frames(ps)) >= 17,
        parity_of(k, r, data_shards_of(ps)).len() == r,
        forall|i: int|
            0 <= i < k + r ==> (#[trigger] encoded_block(k, r, ps)[i]).len() == max_len(frames(ps)),
        forall|i: int| 0 <= i < k ==> (#[trigger] frame(ps[i])).len() <= max_len(frames(ps)),
{
    let fs = frames(ps);
    let n = max_len(fs);
    let block = encoded_block(k, r, ps);
    lemma_max_len(fs, 0);
    lemma_parse_frame_with_tail(ps[0], Seq::empty());
    assert(fs[0] == frame(ps[0]));
    assert(data_shards_of(ps).len() == k);
    assert(block.len() == data_shards_of(ps).len() + parity_of(k, r, data_shards_of(ps)).len());
    assert(block[0] == data_shards_of(ps)[0]);
    assert(block[0].len() == n);
    assert forall|i: int| 0 <= i < k implies (#[trigger] frame(ps[i])).len() <= n by {
        lemma_max_len(fs, i);
        assert(fs[i] == frame(ps[i]));
    }
}

/// The packets read from the encoded block of `ps` at the missing
/// positions are the packets that were lost.
pub proof fn lemma_recovered_are_lost(
    k: nat,
    r: nat,
    ps: Seq<PacketView>,
    data: Seq<Option<Seq<u8>>>,
    upto: nat,
)
    requires
        geometry_ok(k, r),
        ps.len() == k,
        upto <= k,
        forall|i: int| 0 <= i < k ==> (#[trigger] ps[i]).data.len() <= MAX_PAYLOAD,
    ensures
        recovered_packets(data, encoded_block(k, r, ps), upto) == lost_packets(data, ps, upto),
    decreases upto,
{
    if upto > 0 {
        lemma_recovered_are_lost(k, r, ps, data, (upto - 1) as nat);
        let i = upto - 1;
        let fs = frames(ps);
        let n = max_len(fs);
        let shard = encoded_block(k, r, ps)[i];
        assert(shard == pad(fs[i], n));
        assert(fs[i] == frame(ps[i]));
        if fs[i].len() >= n {
            lemma_parse_frame_with_tail(ps[i], Seq::empty());
            assert(frame(ps[i]) + Seq::<u8>::empty() =~= frame(ps[i]));
        } else {
            lemma_parse_frame_with_tail(
                ps[i],
                Seq::new((n - fs[i].len()) as nat, |j: int| 0u8),
            );
        }
        assert(parse_frame(shard) == Ok::<PacketView, FrameFault>(ps[i]));
    }
}

/// What is left of an encoded block, with a data shard missing, is an
/// erasure of that block once its shards are padded: the code restores the
/// block from it.
pub proof fn lemma_remains_are_erasure(k: nat, r: nat, ps: Seq<PacketView>, b: BlockView)
    requires
        remains_of(k, r, ps, b),
        present_count(b.data) < k,
    ensures
        erasure_of(k, r, data_shards_of(ps), padded_block(b)),
{
    let all = b.data + b.parity;
    let n = max_len(frames(ps));
    let block = encoded_block(k, r, ps);
    lemma_encoded_lengths(k, r, ps);
    lemma_slots_concat(b.data, b.parity);
    lemma_present_facts(b.parity, n);
    lemma_present_facts(all, n);
    lemma_slots_concat(all, Seq::empty());
    let j = choose|j: int| 0 <= j < b.parity.len() && (#[trigger] b.parity[j]) is Some;
    assert(all[k + j] == b.parity[j]);
    assert(block[k + j] == parity_of(k, r, data_shards_of(ps))[j]);
    assert forall|i: int| 0 <= i < all.len() && (#[trigger] all[i]) is Some implies all[i].unwrap().len()
        <= n && pad(all[i].unwrap(), n) == block[i] by {
        if i < k {
            assert(all[i] == b.data[i]);
            assert(frames(ps)[i] == frame(ps[i]));
            assert(block[i] == data_shards_of(ps)[i]);
        } else {
            assert(all[i] == b.parity[i - k]);
            assert(block[i] == parity_of(k, r, data_shards_of(ps))[i - k]);
        }
    }
    assert(all[k + j].unwrap().len() == n);
    assert(max_present_len(all) == n);
    let padded = padded_block(b);
    lemma_pad_slots_count(all, n);
    assert forall|i: int| 0 <= i < padded.len() && (#[trigger] padded[i]) is Some implies padded[i].unwrap()
        == block[i] by {
        assert(all[i] is Some);
    }
    assert forall|i: int, m: int|
        0 <= i < padded.len() && 0 <= m < padded.len() && (#[trigger] padded[i]) is Some && (
        #[trigger] padded[m]) is Some implies padded[i].unwrap().len() == padded[m].unwrap().len() by {
        assert(all[i] is Some);
        assert(all[m] is Some);
    }
}

/// One cached block.
#[derive(Debug)]
pub struct FecBlock {
    block_id: u32,
    data_shards: Vec<Option<Vec<u8>>>,
    parity_shards: Vec<Option<Vec<u8>>>,
    created_at: u64,
    recovered: bool,
}

impl View for FecBlock {
    type V = BlockView;

    closed spec fn view(&self) -> BlockView {
        BlockView {
            block_id: self.block_id,
            data: slots(self.data_shards@),
            parity: slots(self.parity_shards@),
            created_at: self.created_at,
            recovered: self.recovered,
        }
    }
}

/// The values of some blocks.
pub open spec fn block_views(v: Seq<FecBlock>) -> Seq<BlockView> {
    Seq::new(v.len(), |i: int| v[i]@)
}

/// Counting and measuring a list of shards one position at a time.
pub proof fn lemma_slots_prefix(s: Seq<Option<Seq<u8>>>, i: int)
    requires
        0 <= i < s.len(),
    ensures
        present_count(s.subrange(0, i + 1)) == present_count(s.subrange(0, i)) + if s[i] is Some {
            1nat
        } else {
            0nat
        },
        max_present_len(s.subrange(0, i + 1)) == if s[i] is Some && s[i].unwrap().len()
            > max_present_len(s.subrange(0, i)) {
            s[i].unwrap().len()
        } else {
            max_present_len(s.subrange(0, i))
        },
{
    assert(s.subrange(0, i + 1).drop_last() =~= s.subrange(0, i));
}

/// Counts and maxima of two lists add up over their concatenation, and the
/// longest present shard bounds every present shard.
pub proof fn lemma_slots_concat(a: Seq<Option<Seq<u8>>>, b: Seq<Option<Seq<u8>>>)
    ensures
        present_count(a + b) == present_count(a) + present_count(b),
        max_present_len(a + b) == if max_present_len(b) > max_present_len(a) {
            max_present_len(b)
        } else {
            max_present_len(a)
        },
        forall|i: int| 0 <= i < a.len() && (#[trigger] a[i]) is Some ==> a[i].unwrap().len()
            <= max_present_len(a),
        present_count(a) <= a.len(),
    decreases b.len(), a.len(),
{
    if b.len() == 0 {
        assert(a + b =~= a);
        if a.len() > 0 {
            lemma_slots_concat(a.drop_last(), b);
            assert forall|i: int| 0 <= i < a.len() && (#[trigger] a[i]) is Some implies a[i].unwrap().len()
                <= max_present_len(a) by {
                if i < a.len() - 1 {
                    assert(a.drop_last()[i] == a[i]);
                }
            }
        }
    } else {
        lemma_slots_concat(a, b.drop_last());
        assert((a + b).drop_last() =~= a + b.drop_last());
    }
}

/// Counts the shards that are present and finds the longest of them.
fn measure(v: &Vec<Option<Vec<u8>>>) -> (m: (usize, usize))
    ensures
        m.0 == present_count(slots(v@)),
        m.1 == max_present_len(slots(v@)),
        m.0 <= v@.len(),
{
    let mut count: usize = 0;
    let mut longest: usize = 0;
    let mut i: usize = 0;
    while i < v.len()
        invariant
            0 <= i <= v@.len(),
            count <= i,
            count == present_count(slots(v@).subrange(0, i as int)),
            longest == max_present_len(slots(v@).subrange(0, i as int)),
        decreases v@.len() - i,
    {
        proof {
            lemma_slots_prefix(slots(v@), i as int);
        }
        match &v[i] {
            Some(b) => {
                count = count + 1;
                if b.len() > longest {
                    longest = b.len();
                }
            },
            None => {},
        }
        i = i + 1;
    }
    assert(slots(v@).subrange(0, v@.len() as int) =~= slots(v@));
    (count, longest)
}

/// Appends to `out` a padded copy of every shard of `v` that is present and
/// an empty slot for every other.
fn push_padded(out: &mut Vec<Option<Vec<u8>>>, v: &Vec<Option<Vec<u8>>>, n: usize)
    ensures
        slots(final(out)@) == slots(old(out)@) + pad_slots(slots(v@), n as nat),
{
    let ghost start = slots(out@);
    let mut i: usize = 0;
    while i < v.len()
        invariant
            0 <= i <= v@.len(),
            slots(out@) =~= start + pad_slots(slots(v@), n as nat).subrange(0, i as int),
        decreases v@.len() - i,
    {
        let ghost before = slots(out@);
        match &v[i] {
            Some(b) => {
                let mut copy = vstd::slice::slice_to_vec(b.as_slice());
                pad_to(&mut copy, n);
                out.push(Some(copy));
            },
            None => {
                out.push(None);
            },
        }
        proof {
            let want = pad_slots(slots(v@), n as nat);
            assert(slots(out@) =~= before.push(want[i as int]));
            assert(want.subrange(0, i + 1) =~= want.subrange(0, i as int).push(want[i as int]));
        }
        i = i + 1;
    }
    assert(pad_slots(slots(v@), n as nat).subrange(0, v@.len() as int) =~= pad_slots(
        slots(v@),
        n as nat,
    ));
}

/// `n` empty slots.
fn empty_slots(n: usize) -> (v: Vec<Option<Vec<u8>>>)
    ensures
        slots(v@) == Seq::new(n as nat, |i: int| None::<Seq<u8>>),
        v@.len() == n,
{
    let mut v: Vec<Option<Vec<u8>>> = Vec::with_capacity(n);
    while v.len() < n
        invariant
            v@.len() <= n,
            forall|i: int| 0 <= i < v@.len() ==> (#[trigger] v@[i]) is None,
        decreases n - v@.len(),
    {
        v.push(None);
    }
    assert(slots(v@) =~= Seq::new(n as nat, |i: int| None::<Seq<u8>>));
    v
}

/// What a call reports: the recovered packets, or `None` for none.
pub open spec fn reported(out: Option<Vec<Packet>>) -> Seq<PacketView> {
    match out {
        Some(v) => packet_views(v@),
        None => Seq::empty(),
    }
}

impl FecBlock {
    /// The block's invariant: `k` data positions and `r` parity positions.
    pub closed spec fn wf(&self, k: nat, r: nat) -> bool {
        self.data_shards@.len() == k && self.parity_shards@.len() == r
    }

    /// The recovery attempt of `recover`, on the block in place.
    fn try_recover(&mut self, k: usize, r: usize) -> (out: Option<Vec<Packet>>)
        requires
            old(self).wf(k as nat, r as nat),
            geometry_ok(k as nat, r as nat),
        ensures
            final(self).wf(k as nat, r as nat),
            (final(self)@, reported(out)) == recover(k as nat, r as nat, old(self)@),
            out is Some ==> out.unwrap()@.len() > 0,
            forall|ps: Seq<PacketView>| #[trigger]
                remains_of(k as nat, r as nat, ps, old(self)@) ==> final(self)@.recovered
                    && reported(out) == lost_packets(old(self)@.data, ps, k as nat),
    {
        if self.recovered {
            return None;
        }
        let ghost before = self@;
        let (data_received, data_longest) = measure(&self.data_shards);
        let (parity_received, parity_longest) = measure(&self.parity_shards);
        if data_received + parity_received < k {
            return None;
        }
        if data_received == k {
            self.recovered = true;
            proof {
                lemma_present_facts(before.data, 0);
                assert forall|ps: Seq<PacketView>| #[trigger]
                    remains_of(k as nat, r as nat, ps, before) implies lost_packets(
                    before.data,
                    ps,
                    k as nat,
                ) == Seq::<PacketView>::empty() by {
                    lemma_nothing_lost(before.data, ps, k as nat);
                }
            }
            return None;
        }
        let longest = if parity_longest > data_longest {
            parity_longest
        } else {
            data_longest
        };
        let mut shards: Vec<Option<Vec<u8>>> = Vec::with_capacity(k + r);
        push_padded(&mut shards, &self.data_shards, longest);
        push_padded(&mut shards, &self.parity_shards, longest);
        proof {
            let d = slots(self.data_shards@);
            let p = slots(self.parity_shards@);
            lemma_slots_concat(d, p);
            assert(slots(shards@) =~= padded_block(self@));
        }
        let rebuilt_block = codec_reconstruct(k, r, shards);
        proof {
            assert forall|ps: Seq<PacketView>| #[trigger]
                remains_of(k as nat, r as nat, ps, before) implies rebuilt_block is Some && rows(
                rebuilt_block.unwrap()@,
            ) == encoded_block(k as nat, r as nat, ps) by {
                lemma_remains_are_erasure(k as nat, r as nat, ps, before);
            }
        }
        let full = match rebuilt_block {
            Some(full) => full,
            None => {
                return None;
            },
        };
        let mut packets: Vec<Packet> = Vec::new();
        let mut i: usize = 0;
        while i < k
            invariant
                0 <= i <= k,
                full@.len() == k + r,
                self.data_shards@.len() == k,
                slots(self.data_shards@) == before.data,
                packet_views(packets@) == recovered_packets(
                    slots(self.data_shards@),
                    rows(full@),
                    i as nat,
                ),
            decreases k - i,
        {
            let ghost before = packet_views(packets@);
            if self.data_shards[i].is_none() {
                let shard = vstd::slice::slice_to_vec(full[i].as_slice());
                match Packet::from_bytes(bytes_from_vec(shard)) {
                    Ok(p) => {
                        packets.push(p);
                        assert(packet_views(packets@) =~= before.push(p@));
                    },
                    Err(_) => {},
                }
            }
            i = i + 1;
        }
        self.recovered = true;
        proof {
            assert forall|ps: Seq<PacketView>| #[trigger]
                remains_of(k as nat, r as nat, ps, before) implies packet_views(packets@)
                == lost_packets(before.data, ps, k as nat) by {
                lemma_recovered_are_lost(k as nat, r as nat, ps, before.data, k as nat);
            }
        }
        if packets.len() == 0 {
            None
        } else {
            Some(packets)
        }
    }
}

/// FEC decoder: caches the shards of each block and recovers lost packets
/// as soon as a block holds enough of them.
#[derive(Debug)]
pub struct FecDecoder {
    data_shards: usize,
    parity_shards: usize,
    blocks: Vec<FecBlock>,
    started: Instant,
    last_cleanup: u64,
}

impl View for FecDecoder {
    type V = DecoderView;

    closed spec fn view(&self) -> DecoderView {
        DecoderView {
            k: self.data_shards as nat,
            r: self.parity_shards as nat,
            blocks: block_views(self.blocks@),
            last_cleanup: self.last_cleanup,
        }
    }
}

/// No two blocks of a cache share an id, and each has the given geometry.
pub open spec fn cache_ok(blocks: Seq<BlockView>, k: nat, r: nat) -> bool {
    &&& forall|i: int, j: int|
        0 <= i < j < blocks.len() ==> (#[trigger] blocks[i]).block_id != (
        #[trigger] blocks[j]).block_id
    &&& forall|i: int|
        0 <= i < blocks.len() ==> (#[trigger] blocks[i]).data.len() == k && blocks[i].parity.len()
            == r
}

impl FecDecoder {
    /// The decoder's invariant: a geometry that the code exists for, and a
    /// cache in which every block has that geometry and its own id.
    pub closed spec fn wf(&self) -> bool {
        &&& geometry_ok(self.data_shards as nat, self.parity_shards as nat)
        &&& cache_ok(self@.blocks, self.data_shards as nat, self.parity_shards as nat)
        &&& forall|i: int|
            0 <= i < self.blocks@.len() ==> (#[trigger] self.blocks@[i]).wf(
                self.data_shards as nat,
                self.parity_shards as nat,
            )
    }

    /// What `wf` says of the public model.
    pub proof fn lemma_wf(&self)
        requires
            self.wf(),
        ensures
            geometry_ok(self@.k, self@.r),
            cache_ok(self@.blocks, self@.k, self@.r),
    {
    }

    /// Create a new FEC decoder for blocks of `data_shards` packets with
    /// `parity_shards` parity packets each, with an empty cache and the
    /// last cleanup at time `now`. Fails with a protocol error unless both
    /// counts are at least 1 and their sum is at most 256.
    pub fn new_at(data_shards: usize, parity_shards: usize, now: u64) -> (r: Result<
        FecDecoder,
        NetworkError,
    >)
        ensures
            r is Ok <==> data_shards >= 1 && parity_shards >= 1 && data_shards + parity_shards
                <= 256,
            r is Ok ==> r.unwrap().wf() && r.unwrap()@ == (DecoderView {
                k: data_shards as nat,
                r: parity_shards as nat,
                blocks: Seq::empty(),
                last_cleanup: now,
            }),
            r is Err ==> r.unwrap_err() is Protocol,
    {
        if data_shards > 256 || parity_shards > 256 || !codec_accepts(data_shards, parity_shards) {
            return Err(NetworkError::Protocol("invalid FEC geometry".to_owned()));
        }
        let d = FecDecoder {
            data_shards,
            parity_shards,
            blocks: Vec::new(),
            started: clock_start(),
            last_cleanup: now,
        };
        assert(d@.blocks =~= Seq::empty());
        Ok(d)
    }

    /// Create a new FEC decoder whose clock starts now: times are
    /// milliseconds since this call, and the last cleanup counts as made at
    /// time 0. Fails as `new_at` does.
    pub fn new(data_shards: usize, parity_shards: usize) -> (r: Result<FecDecoder, NetworkError>)
        ensures
            r is Ok <==> data_shards >= 1 && parity_shards >= 1 && data_shards + parity_shards
                <= 256,
            r is Ok ==> r.unwrap().wf() && r.unwrap()@ == (DecoderView {
                k: data_shards as nat,
                r: parity_shards as nat,
                blocks: Seq::empty(),
                last_cleanup: 0,
            }),
            r is Err ==> r.unwrap_err() is Protocol,
    {
        FecDecoder::new_at(data_shards, parity_shards, 0)
    }

    /// Add a data shard at the time that the decoder's clock shows.
    pub fn add_data_packet(&mut self, seq: u32, data: Bytes) -> (out: Option<Vec<Packet>>)
        requires
            old(self).wf(),
        ensures
            final(self).wf(),
            exists|now: u64|
                (final(self)@, reported(out)) == #[trigger] add_data_step(
                    old(self)@,
                    seq,
                    bytes_seq(data),
                    now,
                ),
            out is Some ==> out.unwrap()@.len() > 0,
    {
        let now = elapsed_ms(&self.started);
        self.add_data_packet_at(seq, data, now)
    }

    /// Add a parity packet at the time that the decoder's clock shows.
    pub fn add_fec_packet(&mut self, fec_packet: FecPacket) -> (out: Result<
        Option<Vec<Packet>>,
        NetworkError,
    >)
        requires
            old(self).wf(),
        ensures
            final(self).wf(),
            exists|now: u64|
                final(self)@ == (#[trigger] add_fec_step(old(self)@, fec_packet@, now)).0
                    && match add_fec_step(old(self)@, fec_packet@, now).1 {
                    Some(s) => out is Ok && reported(out.unwrap()) == s,
                    None => out is Err && out.unwrap_err() is Protocol,
                },
            out is Ok && out.unwrap() is Some ==> out.unwrap().unwrap()@.len() > 0,
    {
        let now = elapsed_ms(&self.started);
        self.add_fec_packet_at(fec_packet, now)
    }

    /// Cleanup tick at the time that the decoder's clock shows.
    pub fn cleanup(&mut self)
        requires
            old(self).wf(),
        ensures
            final(self).wf(),
            exists|now: u64| final(self)@ == #[trigger] cleanup_step(old(self)@, now),
    {
        let now = elapsed_ms(&self.started);
        self.cleanup_at(now)
    }

    /// The position of the block with this id in the cache.
    fn position(&self, id: u32) -> (pos: Option<usize>)
        requires
            self.wf(),
        ensures
            match pos {
                Some(i) => i < self.blocks@.len() && i == find_block(self@.blocks, id),
                None => find_block(self@.blocks, id) == self.blocks@.len(),
            },
    {
        let mut i: usize = 0;
        while i < self.blocks.len()
            invariant
                0 <= i <= self.blocks@.len(),
                forall|j: int| 0 <= j < i ==> (#[trigger] self@.blocks[j]).block_id != id,
                self.wf(),
            decreases self.blocks@.len() - i,
        {
            if self.blocks[i].block_id == id {
                assert(self@.blocks[i as int].block_id == id);
                return Some(i);
            }
            assert(self@.blocks[i as int].block_id != id);
            i = i + 1;
        }
        None
    }

    /// Takes the block at `pos` out of the cache, or makes a fresh one.
    fn take_block(&mut self, pos: Option<usize>, id: u32, now: u64) -> (b: FecBlock)
        requires
            old(self).wf(),
            pos is Some ==> pos.unwrap() < old(self).blocks@.len(),
        ensures
            b.wf(old(self).data_shards as nat, old(self).parity_shards as nat),
            final(self).data_shards == old(self).data_shards,
            final(self).parity_shards == old(self).parity_shards,
            final(self).last_cleanup == old(self).last_cleanup,
            final(self).started == old(self).started,
            match pos {
                Some(i) => {
                    &&& b == old(self).blocks@[i as int]
                    &&& final(self).blocks@ == old(self).blocks@.remove(i as int)
                },
                None => b@ == fresh_block(
                    id,
                    old(self).data_shards as nat,
                    old(self).parity_shards as nat,
                    now,
                ) && final(self).blocks@ == old(self).blocks@,
            },
    {
        match pos {
            Some(i) => self.blocks.remove(i),
            None => FecBlock {
                block_id: id,
                data_shards: empty_slots(self.data_shards),
                parity_shards: empty_slots(self.parity_shards),
                created_at: now,
                recovered: false,
            },
        }
    }

    /// Puts a block back at `pos`, or appends it.
    fn put_back(&mut self, pos: Option<usize>, b: FecBlock)
        requires
            pos is Some ==> pos.unwrap() <= old(self).blocks@.len(),
        ensures
            final(self).data_shards == old(self).data_shards,
            final(self).parity_shards == old(self).parity_shards,
            final(self).last_cleanup == old(self).last_cleanup,
            final(self).blocks@ == match pos {
                Some(i) => old(self).blocks@.insert(i as int, b),
                None => old(self).blocks@.push(b),
            },
    {
        match pos {
            Some(i) => self.blocks.insert(i, b),
            None => self.blocks.push(b),
        }
    }

    /// Add a data shard, received at time `now`: the serialised packet with
    /// sequence number `seq`. Returns the packets that the shard made
    /// recoverable, if any.
    pub fn add_data_packet_at(&mut self, seq: u32, data: Bytes, now: u64) -> (out: Option<
        Vec<Packet>,
    >)
        requires
            old(self).wf(),
        ensures
            final(self).wf(),
            (final(self)@, reported(out)) == add_data_step(old(self)@, seq, bytes_seq(data), now),
            out is Some ==> out.unwrap()@.len() > 0,
            forall|ps: Seq<PacketView>| #[trigger]
                remains_of(
                    old(self)@.k,
                    old(self)@.r,
                    ps,
                    data_landing(old(self)@, seq, bytes_seq(data), now),
                ) ==> reported(out) == lost_packets(
                    data_landing(old(self)@, seq, bytes_seq(data), now).data,
                    ps,
                    old(self)@.k,
                ),
    {
        let k = self.data_shards;
        let r = self.parity_shards;
        let id = seq / (k as u32);
        let index = (seq % (k as u32)) as usize;
        let pos = self.position(id);
        let ghost before = self@;
        let ghost old_blocks = self.blocks@;
        let mut block = self.take_block(pos, id, now);
        if block.recovered {
            self.put_back(pos, block);
            proof {
                assert(self.blocks@ =~= old_blocks);
            }
            return None;
        }
        let shard = vstd::slice::slice_to_vec(bytes_as_slice(&data));
        let ghost taken = block@;
        block.data_shards.set(index, Some(shard));
        proof {
            assert(block@.data =~= taken.data.update(index as int, Some(bytes_seq(data))));
        }
        let out = block.try_recover(k, r);
        let ghost after = block@;
        self.put_back(pos, block);
        proof {
            let i = find_block(before.blocks, id);
            assert(after.block_id == id);
            assert(block_views(self.blocks@) =~= put_block(before.blocks, i, after));
        }
        out
    }

    /// Add a parity packet, received at time `now`. Returns the packets
    /// that it made recoverable, if any. A packet whose geometry is not the
    /// decoder's is a protocol error and its block is dropped; so is one
    /// whose shard index is a data position, which leaves the cache as it is.
    pub fn add_fec_packet_at(&mut self, fec_packet: FecPacket, now: u64) -> (out: Result<
        Option<Vec<Packet>>,
        NetworkError,
    >)
        requires
            old(self).wf(),
        ensures
            final(self).wf(),
            final(self)@ == add_fec_step(old(self)@, fec_packet@, now).0,
            match add_fec_step(old(self)@, fec_packet@, now).1 {
                Some(s) => out is Ok && reported(out.unwrap()) == s,
                None => out is Err && out.unwrap_err() is Protocol,
            },
            out is Ok && out.unwrap() is Some ==> out.unwrap().unwrap()@.len() > 0,
            forall|ps: Seq<PacketView>|
                ({
                    &&& #[trigger] remains_of(
                        old(self)@.k,
                        old(self)@.r,
                        ps,
                        parity_landing(old(self)@, fec_packet@, now),
                    )
                    &&& fec_geometry_matches(old(self)@, fec_packet@)
                    &&& fec_packet@.index >= old(self)@.k
                }) ==> ({
                    &&& out is Ok
                    &&& reported(out.unwrap()) == lost_packets(
                        parity_landing(old(self)@, fec_packet@, now).data,
                        ps,
                        old(self)@.k,
                    )
                }),
    {
        let k = self.data_shards;
        let r = self.parity_shards;
        let pos = self.position(fec_packet.block_id);
        let ghost before = self@;
        let ghost old_blocks = self.blocks@;
        if fec_packet.data_count as usize != k || fec_packet.parity_count as usize != r {
            match pos {
                Some(i) => {
                    let _ = self.blocks.remove(i);
                    assert(block_views(self.blocks@) =~= before.blocks.remove(i as int));
                },
                None => {},
            }
            return Err(NetworkError::Protocol("FEC geometry mismatch".to_owned()));
        }
        if (fec_packet.index as usize) < k {
            return Err(NetworkError::Protocol("FEC shard index out of range".to_owned()));
        }
        let mut block = self.take_block(pos, fec_packet.block_id, now);
        if block.recovered {
            self.put_back(pos, block);
            proof {
                assert(self.blocks@ =~= old_blocks);
            }
            return Ok(None);
        }
        let at = fec_packet.index as usize - k;
        let ghost taken = block@;
        if at < r {
            let shard = vstd::slice::slice_to_vec(bytes_as_slice(&fec_packet.data));
            block.parity_shards.set(at, Some(shard));
            proof {
                assert(block@.parity =~= taken.parity.update(at as int, Some(fec_packet@.data)));
            }
        }
        let out = block.try_recover(k, r);
        let ghost after = block@;
        self.put_back(pos, block);
        proof {
            let i = find_block(before.blocks, fec_packet.block_id);
            assert(after.block_id == fec_packet.block_id);
            assert(block_views(self.blocks@) =~= put_block(before.blocks, i, after));
        }
        Ok(out)
    }

    /// Cleanup tick at time `now`: at most once per five seconds, drops
    /// every block that is ten seconds old or older.
    pub fn cleanup_at(&mut self, now: u64)
        requires
            old(self).wf(),
        ensures
            final(self).wf(),
            final(self)@ == cleanup_step(old(self)@, now),
    {
        if now <= self.last_cleanup || now - self.last_cleanup < CLEANUP_INTERVAL_MS {
            return ;
        }
        let ghost before = self@.blocks;
        let ghost n = before.len();
        let ghost start = *self;
        let mut j: usize = 0;
        let ghost mut seen: int = 0;
        while j < self.blocks.len()
            invariant
                0 <= seen <= n,
                n == before.len(),
                j <= self.blocks@.len(),
                self.blocks@.len() - j == n - seen,
                self.data_shards == start.data_shards,
                self.parity_shards == start.parity_shards,
                self.last_cleanup == start.last_cleanup,
                geometry_ok(self.data_shards as nat, self.parity_shards as nat),
                cache_ok(before, self.data_shards as nat, self.parity_shards as nat),
                block_views(self.blocks@) =~= young_blocks(before.subrange(0, seen), now)
                    + before.subrange(seen, n as int),
                j == young_blocks(before.subrange(0, seen), now).len(),
                forall|i: int|
                    0 <= i < self.blocks@.len() ==> (#[trigger] self.blocks@[i]).wf(
                        self.data_shards as nat,
                        self.parity_shards as nat,
                    ),
            decreases self.blocks@.len() - j,
        {
            let ghost y = young_blocks(before.subrange(0, seen), now);
            let ghost cur = block_views(self.blocks@);
            proof {
                assert(before.subrange(0, seen + 1).drop_last() =~= before.subrange(0, seen));
                assert(before.subrange(0, seen + 1).last() == before[seen]);
                assert(cur[j as int] == before[seen]);
                assert(self.blocks@[j as int]@ == cur[j as int]);
            }
            let created = self.blocks[j].created_at;
            if now <= created || now - created < BLOCK_LIFETIME_MS {
                j = j + 1;
                proof {
                    assert(young_blocks(before.subrange(0, seen + 1), now) =~= y.push(before[seen]));
                    assert(cur =~= y.push(before[seen]) + before.subrange(seen + 1, n as int));
                }
            } else {
                let _ = self.blocks.remove(j);
                proof {
                    assert(young_blocks(before.subrange(0, seen + 1), now) == y);
                    assert(block_views(self.blocks@) =~= cur.remove(j as int));
                    assert(cur.remove(j as int) =~= y + before.subrange(seen + 1, n as int));
                }
            }
            proof {
                seen = seen + 1;
            }
        }
        proof {
            assert(before.subrange(0, n as int) =~= before);
            assert(before.subrange(n as int, n as int) =~= Seq::<BlockView>::empty());
            assert(block_views(self.blocks@) =~= young_blocks(before, now));
            lemma_young_blocks_ok(before, now, self.data_shards as nat, self.parity_shards as nat);
        }
        self.last_cleanup = now;
    }
}

/// A cleanup keeps a sub-list of the cache, so what it keeps is a cache in
/// good order.
pub proof fn lemma_young_blocks_ok(blocks: Seq<BlockView>, now: u64, k: nat, r: nat)
    requires
        cache_ok(blocks, k, r),
    ensures
        cache_ok(young_blocks(blocks, now), k, r),
        forall|i: int|
            0 <= i < young_blocks(blocks, now).len() ==> exists|j: int|
                0 <= j < blocks.len() && blocks[j] == #[trigger] young_blocks(blocks, now)[i],
    decreases blocks.len(),
{
    if blocks.len() > 0 {
        let rest = blocks.drop_last();
        lemma_young_blocks_ok(rest, now, k, r);
        let y = young_blocks(blocks, now);
        let yr = young_blocks(rest, now);
        assert forall|i: int| 0 <= i < y.len() implies exists|j: int|
            0 <= j < blocks.len() && blocks[j] == #[trigger] y[i] by {
            if i < yr.len() {
                let j = choose|j: int| 0 <= j < rest.len() && rest[j] == yr[i];
                assert(blocks[j] == y[i]);
            } else {
                assert(blocks[blocks.len() - 1] == y[i]);
            }
        }
        assert forall|a: int, b: int| 0 <= a < b < y.len() implies (#[trigger] y[a]).block_id != (
        #[trigger] y[b]).block_id by {
            if b == yr.len() {
                let j = choose|j: int| 0 <= j < rest.len() && rest[j] == yr[a];
                assert(blocks[j] == y[a]);
                assert(blocks[blocks.len() - 1] == y[b]);
            }
        }
    }
}

/// No block is reconstructed twice: once an attempt has marked a block as
/// recovered, a further attempt changes nothing and reports nothing, and a
/// shard sent to a recovered block in the cache leaves the decoder as it was.
pub proof fn lemma_recovered_is_final(
    d: DecoderView,
    b: BlockView,
    seq: u32,
    bytes: Seq<u8>,
    f: FecPacketView,
    now: u64,
)
    requires
        d.k >= 1,
    ensures
        recover(d.k, d.r, b).0.recovered ==> recover(d.k, d.r, recover(d.k, d.r, b).0) == (
            recover(d.k, d.r, b).0,
            Seq::<PacketView>::empty(),
        ),
        ({
            let i = find_block(d.blocks, (seq as nat / d.k) as u32);
            i < d.blocks.len() && d.blocks[i].recovered
        }) ==> add_data_step(d, seq, bytes, now) == (d, Seq::<PacketView>::empty()),
        ({
            let i = find_block(d.blocks, f.block_id);
            i < d.blocks.len() && d.blocks[i].recovered && fec_geometry_matches(d, f) && f.index
                >= d.k
        }) ==> add_fec_step(d, f, now) == (d, Some(Seq::<PacketView>::empty())),
{
}

} // verus!
