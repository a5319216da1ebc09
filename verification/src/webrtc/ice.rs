//! Media chunk framing for the UDP media path and STUN (RFC 5389 / 5766)
//! message construction and parsing for ICE.
use vstd::prelude::*;
use vstd::string::StringExecFns;
use vstd::string::StringSliceAdditionalSpecFns;
use crate::bytes;
use crate::primitives;

verus! {

/// Largest chunk payload sent in one datagram.
pub const MAX_UDP_PAYLOAD: usize = 1200;

/// STUN magic cookie.
pub const MAGIC_COOKIE: u32 = 0x2112A442;

/// STUN binding request message type.
pub const STUN_BINDING_REQUEST: u16 = 0x0001;
/// STUN binding response message type.
pub const STUN_BINDING_RESPONSE: u16 = 0x0101;
/// TURN allocate request message type.
pub const STUN_ALLOCATE_REQUEST: u16 = 0x0003;
/// TURN allocate response message type.
pub const STUN_ALLOCATE_RESPONSE: u16 = 0x0103;
/// MAPPED-ADDRESS attribute.
pub const ATTR_MAPPED_ADDRESS: u16 = 0x0001;
/// XOR-MAPPED-ADDRESS attribute.
pub const ATTR_XOR_MAPPED_ADDRESS: u16 = 0x0020;
/// REQUESTED-TRANSPORT attribute.
pub const ATTR_REQUESTED_TRANSPORT: u16 = 0x0019;
/// XOR-RELAYED-ADDRESS attribute.
pub const ATTR_XOR_RELAYED_ADDRESS: u16 = 0x0016;

// ── Media chunk framing ─────────────────────────────────────────────────────

/// A piece of a frame transmitted in one UDP datagram.
pub struct MediaChunk {
    pub frame_id: u32,
    pub offset: u32,
    pub total: u32,
    pub data: Vec<u8>,
}

/// Abstract value of a chunk.
pub struct ChunkView {
    pub frame_id: u32,
    pub offset: u32,
    pub total: u32,
    pub data: Seq<u8>,
}

impl View for MediaChunk {
    type V = ChunkView;

    open spec fn view(&self) -> ChunkView {
        ChunkView { frame_id: self.frame_id, offset: self.offset, total: self.total, data: self.data@ }
    }
}

/// Wire form of a chunk: payload length, frame id, offset and total as
/// little-endian 32-bit values, then the payload.
pub open spec fn spec_encode_chunk(c: ChunkView) -> Seq<u8> {
    bytes::le32(c.data.len() as u32) + bytes::le32(c.frame_id) + bytes::le32(c.offset) + bytes::le32(c.total) + c.data
}

/// The chunk read from the front of `buf`, if it holds a complete one.
pub open spec fn spec_decode_chunk(buf: Seq<u8>) -> Option<ChunkView> {
    if buf.len() < 16 {
        None
    } else {
        let len = bytes::read_le32(buf, 0) as int;
        if buf.len() < 16 + len {
            None
        } else {
            Some(ChunkView {
                frame_id: bytes::read_le32(buf, 4),
                offset: bytes::read_le32(buf, 8),
                total: bytes::read_le32(buf, 12),
                data: buf.subrange(16, 16 + len),
            })
        }
    }
}

pub fn encode_chunk(chunk: &MediaChunk) -> (out: Vec<u8>)
    requires
        chunk.data@.len() + 16 <= usize::MAX,
    ensures
        out@ == spec_encode_chunk(chunk@),
{
    let mut buf: Vec<u8> = Vec::with_capacity(16 + chunk.data.len());
    bytes::push_le32(&mut buf, chunk.data.len() as u32);
    bytes::push_le32(&mut buf, chunk.frame_id);
    bytes::push_le32(&mut buf, chunk.offset);
    bytes::push_le32(&mut buf, chunk.total);
    bytes::push_all(&mut buf, chunk.data.as_slice());
    buf
}

pub fn decode_chunk(buf: &[u8]) -> (r: Option<MediaChunk>)
    ensures
        match spec_decode_chunk(buf@) {
            None => r is None,
            Some(c) => r matches Some(m) && m@ == c,
        },
{
    if buf.len() < 16 {
        return None;
    }
    let len = bytes::load_le32(buf, 0) as usize;
    if buf.len() - 16 < len {
        return None;
    }
    Some(MediaChunk {
        frame_id: bytes::load_le32(buf, 4),
        offset: bytes::load_le32(buf, 8),
        total: bytes::load_le32(buf, 12),
        data: bytes::copy_range(buf, 16, 16 + len),
    })
}

/// Decoding an encoded chunk gives back the chunk, whatever bytes follow
/// it in the buffer.
pub proof fn lemma_chunk_round_trip(c: ChunkView, tail: Seq<u8>)
    requires
        c.data.len() <= u32::MAX,
    ensures
        spec_decode_chunk(spec_encode_chunk(c) + tail) == Some(c),
        spec_decode_chunk(spec_encode_chunk(c)) == Some(c),
{
    let e = spec_encode_chunk(c);
    let b = e + tail;
    bytes::lemma_le32_roundtrip(c.data.len() as u32);
    bytes::lemma_le32_roundtrip(c.frame_id);
    bytes::lemma_le32_roundtrip(c.offset);
    bytes::lemma_le32_roundtrip(c.total);
    assert(bytes::read_le32(e, 0) == c.data.len() as u32);
    assert(bytes::read_le32(e, 4) == c.frame_id);
    assert(bytes::read_le32(e, 8) == c.offset);
    assert(bytes::read_le32(e, 12) == c.total);
    assert(e.subrange(16, (16 + c.data.len()) as int) =~= c.data);
    assert(b.subrange(0, 16) =~= e.subrange(0, 16));
    assert(bytes::read_le32(b, 0) == bytes::read_le32(e, 0));
    assert(bytes::read_le32(b, 4) == bytes::read_le32(e, 4));
    assert(bytes::read_le32(b, 8) == bytes::read_le32(e, 8));
    assert(bytes::read_le32(b, 12) == bytes::read_le32(e, 12));
    assert(b.subrange(16, (16 + c.data.len()) as int) =~= c.data);
}

/// The chunks a frame of `data` is sent as: consecutive pieces of at most
/// `MAX_UDP_PAYLOAD` bytes, each stamped with the frame id, its offset and
/// the frame's total length.
pub open spec fn spec_split_frame(frame_id: u32, data: Seq<u8>) -> Seq<ChunkView> {
    let n = (data.len() + MAX_UDP_PAYLOAD - 1) / (MAX_UDP_PAYLOAD as int);
    Seq::new(n as nat, |i: int| ChunkView {
        frame_id,
        offset: (i * MAX_UDP_PAYLOAD) as u32,
        total: data.len() as u32,
        data: data.subrange(i * MAX_UDP_PAYLOAD, if (i + 1) * MAX_UDP_PAYLOAD < data.len() { (i + 1) * MAX_UDP_PAYLOAD } else { data.len() as int }),
    })
}

/// Split a frame into the chunks that carry it.
pub fn split_frame(frame_id: u32, data: &[u8]) -> (out: Vec<MediaChunk>)
    requires
        data@.len() + MAX_UDP_PAYLOAD <= usize::MAX,
    ensures
        out@.len() == spec_split_frame(frame_id, data@).len(),
        forall|i: int| 0 <= i < out@.len() ==> #[trigger] out@[i]@ == spec_split_frame(frame_id, data@)[i],
{
    let total = data.len() as u32;
    let mut out: Vec<MediaChunk> = Vec::new();
    let mut offset: usize = 0;
    let mut k: usize = 0;
    while offset < data.len()
        invariant
            data@.len() + MAX_UDP_PAYLOAD <= usize::MAX,
            total == data@.len() as u32,
            (offset == k * MAX_UDP_PAYLOAD && offset <= data@.len()) || (offset == data@.len() && k
                == (data@.len() + MAX_UDP_PAYLOAD - 1) / (MAX_UDP_PAYLOAD as int)),
            k <= (data@.len() + MAX_UDP_PAYLOAD - 1) / (MAX_UDP_PAYLOAD as int),
            out@.len() == k,
            forall|i: int| 0 <= i < k ==> #[trigger] out@[i]@ == spec_split_frame(frame_id, data@)[i],
        decreases data@.len() - offset,
    {
        let end = if offset + MAX_UDP_PAYLOAD < data.len() { offset + MAX_UDP_PAYLOAD } else { data.len() };
        let chunk = MediaChunk { frame_id, offset: offset as u32, total, data: bytes::copy_range(data, offset, end) };
        out.push(chunk);
        proof {
            assert((k + 1) * MAX_UDP_PAYLOAD == offset + MAX_UDP_PAYLOAD);
            assert(k < (data@.len() + MAX_UDP_PAYLOAD - 1) / (MAX_UDP_PAYLOAD as int)) by (nonlinear_arith)
                requires
                    k * 1200 < data@.len(),
            ;
            if end == data.len() {
                assert(k + 1 == (data@.len() + MAX_UDP_PAYLOAD - 1) / (MAX_UDP_PAYLOAD as int)) by (nonlinear_arith)
                    requires
                        k * 1200 < data@.len(),
                        data@.len() <= k * 1200 + 1200,
                ;
            }
        }
        offset = end;
        k = k + 1;
    }
    out
}

// ── Frame reassembly ────────────────────────────────────────────────────────

/// A received piece of a frame: its offset and its bytes.
pub type PieceView = (u32, Seq<u8>);

/// A frame being reassembled: its id, its announced length, and the
/// pieces received so far in increasing order of offset.
pub struct FrameView {
    pub frame_id: u32,
    pub total: u32,
    pub pieces: Seq<PieceView>,
}

/// How many pieces lie below offset `off` (in a list sorted by offset).
pub open spec fn lower_bound(ps: Seq<PieceView>, off: u32) -> int
    decreases ps.len(),
{
    if ps.len() == 0 {
        0
    } else if ps[0].0 >= off {
        0
    } else {
        1 + lower_bound(ps.drop_first(), off)
    }
}

/// The pieces after receiving bytes `d` at offset `off`: they replace the
/// piece at that offset, or are put in offset order.
pub open spec fn insert_piece(ps: Seq<PieceView>, off: u32, d: Seq<u8>) -> Seq<PieceView> {
    let k = lower_bound(ps, off);
    if k < ps.len() && ps[k].0 == off { ps.update(k, (off, d)) } else { ps.insert(k, (off, d)) }
}

/// How many bytes the pieces hold.
pub open spec fn pieces_len(ps: Seq<PieceView>) -> int
    decreases ps.len(),
{
    if ps.len() == 0 { 0 } else { pieces_len(ps.drop_last()) + ps.last().1.len() }
}

/// The pieces' bytes, one after the other.
pub open spec fn pieces_concat(ps: Seq<PieceView>) -> Seq<u8>
    decreases ps.len(),
{
    if ps.len() == 0 { Seq::empty() } else { pieces_concat(ps.drop_last()) + ps.last().1 }
}

/// The first frame with id `id`, or -1.
pub open spec fn frame_index(fs: Seq<FrameView>, id: u32) -> int
    decreases fs.len(),
{
    if fs.len() == 0 {
        -1
    } else {
        let earlier = frame_index(fs.drop_last(), id);
        if earlier >= 0 { earlier } else if fs.last().frame_id == id { fs.len() - 1 } else { -1 }
    }
}

/// Most frames kept while waiting for their pieces: when a frame completes
/// and more than this many remain incomplete, they are all dropped.
pub const MAX_PARTIAL_FRAMES: usize = 64;

/// Receiving chunk `c`: its piece goes to its frame (a new one, with the
/// chunk's total, if the frame is unknown). A chunk announcing a total of
/// zero completes nothing. Once the frame's pieces hold exactly its total,
/// the frame is complete: it is taken out and its bytes returned; if more
/// than `MAX_PARTIAL_FRAMES` others remain, they are dropped.
pub open spec fn spec_push_chunk(fs: Seq<FrameView>, c: ChunkView) -> (Seq<FrameView>, Option<Seq<u8>>) {
    let i = frame_index(fs, c.frame_id);
    let f = if i >= 0 { fs[i] } else { FrameView { frame_id: c.frame_id, total: c.total, pieces: Seq::empty() } };
    let f2 = FrameView { pieces: insert_piece(f.pieces, c.offset, c.data), ..f };
    let j = if i >= 0 { i } else { fs.len() as int };
    let fs2 = if i >= 0 { fs.update(i, f2) } else { fs.push(f2) };
    if c.total == 0 {
        (fs2, None)
    } else if pieces_len(f2.pieces) == f2.total {
        let fs3 = fs2.remove(j);
        (if fs3.len() > MAX_PARTIAL_FRAMES { Seq::empty() } else { fs3 }, Some(pieces_concat(f2.pieces)))
    } else {
        (fs2, None)
    }
}

/// The frames after receiving chunks `cs` in order, and what each chunk
/// completed.
pub open spec fn spec_push_chunks(fs: Seq<FrameView>, cs: Seq<ChunkView>) -> (Seq<FrameView>, Seq<Option<Seq<u8>>>)
    decreases cs.len(),
{
    if cs.len() == 0 {
        (fs, Seq::empty())
    } else {
        let (fs1, outs) = spec_push_chunks(fs, cs.drop_last());
        let (fs2, o) = spec_push_chunk(fs1, cs.last());
        (fs2, outs.push(o))
    }
}

proof fn lemma_lower_bound(ps: Seq<PieceView>, off: u32, k: int)
    requires
        0 <= k <= ps.len(),
        forall|j: int| 0 <= j < k ==> ps[j].0 < off,
        k == ps.len() || ps[k].0 >= off,
    ensures
        lower_bound(ps, off) == k,
    decreases ps.len(),
{
    if ps.len() > 0 && k > 0 {
        assert forall|j: int| 0 <= j < k - 1 implies ps.drop_first()[j].0 < off by {
            assert(ps.drop_first()[j] == ps[j + 1]);
        }
        lemma_lower_bound(ps.drop_first(), off, k - 1);
    }
}

proof fn lemma_frame_index(fs: Seq<FrameView>, id: u32)
    ensures
        -1 <= frame_index(fs, id) < fs.len(),
        frame_index(fs, id) >= 0 ==> fs[frame_index(fs, id)].frame_id == id,
        frame_index(fs, id) >= 0 ==> forall|j: int| 0 <= j < frame_index(fs, id) ==> fs[j].frame_id != id,
        frame_index(fs, id) == -1 ==> forall|j: int| 0 <= j < fs.len() ==> fs[j].frame_id != id,
    decreases fs.len(),
{
    if fs.len() > 0 {
        lemma_frame_index(fs.drop_last(), id);
        assert forall|j: int| 0 <= j < fs.len() - 1 implies fs.drop_last()[j] == fs[j] by {}
    }
}

/// The pieces the first `k` chunks of a split frame leave.
pub open spec fn split_pieces(frame_id: u32, data: Seq<u8>, k: int) -> Seq<PieceView> {
    Seq::new(k as nat, |i: int| (spec_split_frame(frame_id, data)[i].offset, spec_split_frame(frame_id, data)[i].data))
}

proof fn lemma_split_shape(frame_id: u32, data: Seq<u8>)
    requires
        0 < data.len() <= u32::MAX,
    ensures
        ({
            let n = spec_split_frame(frame_id, data).len();
            &&& n >= 1
            &&& (n - 1) * MAX_UDP_PAYLOAD < data.len() <= n * MAX_UDP_PAYLOAD
        }),
{
    let len = data.len() as int;
    let n = (len + 1199) / 1200;
    assert(n >= 1 && (n - 1) * 1200 < len && len <= n * 1200) by (nonlinear_arith)
        requires
            n == (len + 1199) / 1200,
            len > 0,
    ;
}

proof fn lemma_split_chunk(frame_id: u32, data: Seq<u8>, i: int)
    requires
        0 < data.len() <= u32::MAX,
        0 <= i < spec_split_frame(frame_id, data).len(),
    ensures
        ({
            let c = spec_split_frame(frame_id, data)[i];
            let n = spec_split_frame(frame_id, data).len();
            &&& c.offset == i * MAX_UDP_PAYLOAD
            &&& c.total == data.len()
            &&& c.frame_id == frame_id
            &&& i < n - 1 ==> c.data == data.subrange(i * MAX_UDP_PAYLOAD, (i + 1) * MAX_UDP_PAYLOAD)
            &&& i == n - 1 ==> c.data == data.subrange(i * MAX_UDP_PAYLOAD, data.len() as int)
        }),
{
    lemma_split_shape(frame_id, data);
    let n = spec_split_frame(frame_id, data).len() as int;
    assert(i * 1200 < data.len()) by (nonlinear_arith)
        requires
            i <= n - 1,
            (n - 1) * 1200 < data.len(),
    ;
    if i < n - 1 {
        assert((i + 1) * 1200 < data.len()) by (nonlinear_arith)
            requires
                i + 1 <= n - 1,
                (n - 1) * 1200 < data.len(),
        ;
    } else {
        assert((i + 1) * 1200 >= data.len()) by (nonlinear_arith)
            requires
                i == n - 1,
                data.len() <= n * 1200,
        ;
    }
}

proof fn lemma_split_pieces(frame_id: u32, data: Seq<u8>, k: int)
    requires
        0 < data.len() <= u32::MAX,
        0 <= k < spec_split_frame(frame_id, data).len(),
    ensures
        pieces_len(split_pieces(frame_id, data, k)) == k * MAX_UDP_PAYLOAD,
        pieces_concat(split_pieces(frame_id, data, k)) == data.take(k * MAX_UDP_PAYLOAD),
        forall|j: int| 0 <= j < k ==> #[trigger] split_pieces(frame_id, data, k)[j].0 < k * MAX_UDP_PAYLOAD,
    decreases k,
{
    let ps = split_pieces(frame_id, data, k);
    lemma_split_shape(frame_id, data);
    if k > 0 {
        lemma_split_pieces(frame_id, data, k - 1);
        lemma_split_chunk(frame_id, data, k - 1);
        let prev = split_pieces(frame_id, data, k - 1);
        assert(ps.drop_last() =~= prev);
        assert(ps.last().1 == data.subrange((k - 1) * 1200, k * 1200));
        assert(data.take((k - 1) * 1200) + data.subrange((k - 1) * 1200, k * 1200) =~= data.take(k * 1200));
        assert forall|j: int| 0 <= j < k implies #[trigger] ps[j].0 < k * MAX_UDP_PAYLOAD by {
            lemma_split_chunk(frame_id, data, j);
        }
    } else {
        assert(ps =~= Seq::<PieceView>::empty());
        assert(data.take(0) =~= Seq::<u8>::empty());
    }
}

proof fn lemma_frame_index_push(fs: Seq<FrameView>, f: FrameView)
    requires
        frame_index(fs, f.frame_id) == -1,
    ensures
        frame_index(fs.push(f), f.frame_id) == fs.len(),
{
    assert(fs.push(f).drop_last() =~= fs);
}

#[verifier::spinoff_prover]
proof fn lemma_push_split_prefix(fs: Seq<FrameView>, frame_id: u32, data: Seq<u8>, k: int)
    requires
        frame_index(fs, frame_id) == -1,
        0 < data.len() <= u32::MAX,
        1 <= k < spec_split_frame(frame_id, data).len(),
    ensures
        ({
            let (fs_k, outs) = spec_push_chunks(fs, spec_split_frame(frame_id, data).take(k));
            &&& fs_k == fs.push(FrameView { frame_id, total: data.len() as u32, pieces: split_pieces(frame_id, data, k) })
            &&& outs.len() == k
            &&& forall|i: int| 0 <= i < k ==> outs[i] is None
        }),
    decreases k,
{
    let cs = spec_split_frame(frame_id, data);
    lemma_split_shape(frame_id, data);
    lemma_split_chunk(frame_id, data, k - 1);
    let c = cs[k - 1];
    assert(cs.take(k).drop_last() =~= cs.take(k - 1));
    assert(cs.take(k).last() == c);
    let total = data.len() as u32;
    let (fs_prev, outs_prev) = spec_push_chunks(fs, cs.take(k - 1));
    let (fs_k, outs) = spec_push_chunks(fs, cs.take(k));
    let (fs_new, o) = spec_push_chunk(fs_prev, c);
    assert(fs_k == fs_new && outs == outs_prev.push(o));
    let target = fs.push(FrameView { frame_id, total, pieces: split_pieces(frame_id, data, k) });
    lemma_split_pieces(frame_id, data, k);
    if k == 1 {
        assert(cs.take(0) =~= Seq::<ChunkView>::empty());
        assert(fs_prev == fs && outs_prev.len() == 0);
        let f0 = FrameView { frame_id, total: c.total, pieces: Seq::<PieceView>::empty() };
        assert(lower_bound(Seq::<PieceView>::empty(), c.offset) == 0);
        let p1 = insert_piece(f0.pieces, c.offset, c.data);
        assert(p1 =~= split_pieces(frame_id, data, 1));
        assert(pieces_len(p1) == 1200);
        assert(fs_new == fs.push(FrameView { pieces: p1, ..f0 }));
        assert(fs_new =~= target);
        assert(o is None);
    } else {
        lemma_push_split_prefix(fs, frame_id, data, k - 1);
        let prev = split_pieces(frame_id, data, k - 1);
        let f = FrameView { frame_id, total, pieces: prev };
        assert(fs_prev == fs.push(f));
        lemma_frame_index_push(fs, f);
        assert(frame_index(fs_prev, frame_id) == fs.len());
        assert(fs_prev[fs.len() as int] == f);
        lemma_split_pieces(frame_id, data, k - 1);
        lemma_lower_bound(prev, c.offset, k - 1);
        let p_k = insert_piece(prev, c.offset, c.data);
        assert(p_k =~= split_pieces(frame_id, data, k));
        assert(pieces_len(p_k) == k * 1200);
        assert(fs_new == fs_prev.update(fs.len() as int, FrameView { pieces: p_k, ..f }));
        assert(fs_new =~= target);
        assert(o is None);
    }
    assert(outs.len() == k);
}

/// Sending a frame as the chunks `split_frame` makes and receiving them in
/// order gives the frame back when its last chunk arrives, and nothing
/// before; the frames pending before are kept (unless more than
/// `MAX_PARTIAL_FRAMES` of them are pending, which are dropped).
#[verifier::spinoff_prover]
pub proof fn lemma_split_frame_reassembles(fs: Seq<FrameView>, frame_id: u32, data: Seq<u8>)
    requires
        frame_index(fs, frame_id) == -1,
        0 < data.len() <= u32::MAX,
    ensures
        ({
            let cs = spec_split_frame(frame_id, data);
            let (fs_n, outs) = spec_push_chunks(fs, cs);
            &&& outs.len() == cs.len()
            &&& outs.last() == Some(data)
            &&& forall|i: int| 0 <= i < outs.len() - 1 ==> outs[i] is None
            &&& fs_n == (if fs.len() > MAX_PARTIAL_FRAMES { Seq::<FrameView>::empty() } else { fs })
        }),
{
    let cs = spec_split_frame(frame_id, data);
    lemma_split_shape(frame_id, data);
    let n = cs.len() as int;
    let total = data.len() as u32;
    lemma_split_chunk(frame_id, data, n - 1);
    let c = cs[n - 1];
    assert(cs.drop_last() =~= cs.take(n - 1));
    lemma_split_pieces(frame_id, data, n - 1);
    let prev = split_pieces(frame_id, data, n - 1);
    assert(data.take((n - 1) * 1200) + data.subrange((n - 1) * 1200, data.len() as int) =~= data);
    if n == 1 {
        assert(cs.take(0) =~= Seq::<ChunkView>::empty());
        assert(prev =~= Seq::<PieceView>::empty());
        let f0 = FrameView { frame_id, total: c.total, pieces: Seq::<PieceView>::empty() };
        let p1 = insert_piece(f0.pieces, c.offset, c.data);
        assert(p1 =~= seq![(c.offset, c.data)]);
        assert(p1.drop_last() =~= Seq::<PieceView>::empty());
        assert(pieces_len(p1) == data.len());
        assert(pieces_concat(p1) =~= data);
        assert(fs.push(FrameView { pieces: p1, ..f0 }).remove(fs.len() as int) =~= fs);
        let (fs1, outs1) = spec_push_chunks(fs, cs.drop_last());
        assert(fs1 == fs);
        assert(outs1.len() == 0);
        let (fs2, o) = spec_push_chunk(fs1, c);
        assert(o == Some(data));
        assert(fs2 == (if fs.len() > MAX_PARTIAL_FRAMES { Seq::<FrameView>::empty() } else { fs }));
    } else {
        lemma_push_split_prefix(fs, frame_id, data, n - 1);
        let f = FrameView { frame_id, total, pieces: prev };
        lemma_frame_index_push(fs, f);
        lemma_lower_bound(prev, c.offset, n - 1);
        let p_n = prev.insert(n - 1, (c.offset, c.data));
        assert(p_n.drop_last() =~= prev);
        assert(pieces_len(p_n) == data.len());
        assert(pieces_concat(p_n) =~= data);
        assert(fs.push(f).update(fs.len() as int, FrameView { pieces: p_n, ..f }).remove(fs.len() as int) =~= fs);
        let (fs1, outs1) = spec_push_chunks(fs, cs.drop_last());
        assert(fs1 == fs.push(f));
        assert(frame_index(fs1, c.frame_id) == fs.len());
        assert(fs1[fs.len() as int] == f);
        assert(insert_piece(f.pieces, c.offset, c.data) == p_n);
        let (fs2, o) = spec_push_chunk(fs1, c);
        assert(o == Some(data));
        assert(fs2 == (if fs.len() > MAX_PARTIAL_FRAMES { Seq::<FrameView>::empty() } else { fs }));
        assert(outs1.len() == n - 1);
    }
}

/// The view of a piece.
pub open spec fn piece_view(p: (u32, Vec<u8>)) -> PieceView {
    (p.0, p.1@)
}

/// A frame being reassembled.
pub struct PartialFrame {
    pub frame_id: u32,
    pub total: u32,
    pub pieces: Vec<(u32, Vec<u8>)>,
}

/// The view of a frame being reassembled.
pub open spec fn partial_view(f: PartialFrame) -> FrameView {
    FrameView { frame_id: f.frame_id, total: f.total, pieces: f.pieces@.map_values(|p: (u32, Vec<u8>)| piece_view(p)) }
}

/// Reassembles frames from the chunks that carry them.
pub struct FrameAssembler {
    frames: Vec<PartialFrame>,
}

impl FrameAssembler {
    /// The frames waiting for pieces.
    pub closed spec fn spec_frames(&self) -> Seq<FrameView> {
        self.frames@.map_values(|f: PartialFrame| partial_view(f))
    }

    /// An assembler with no frame pending.
    pub fn new() -> (r: Self)
        ensures
            r.spec_frames() == Seq::<FrameView>::empty(),
    {
        let r = FrameAssembler { frames: Vec::new() };
        assert(r.spec_frames() =~= Seq::<FrameView>::empty());
        r
    }

    fn find(&self, id: u32) -> (r: Option<usize>)
        ensures
            match r {
                None => frame_index(self.spec_frames(), id) == -1,
                Some(i) => i == frame_index(self.spec_frames(), id) && i < self.frames@.len(),
            },
    {
        let ghost fs = self.spec_frames();
        proof { lemma_frame_index(fs, id); }
        let mut i: usize = 0;
        while i < self.frames.len()
            invariant
                i <= self.frames@.len(),
                fs == self.spec_frames(),
                fs.len() == self.frames@.len(),
                forall|j: int| 0 <= j < i ==> fs[j].frame_id != id,
                -1 <= frame_index(fs, id) < fs.len(),
                frame_index(fs, id) >= 0 ==> fs[frame_index(fs, id)].frame_id == id,
                frame_index(fs, id) >= 0 ==> forall|j: int| 0 <= j < frame_index(fs, id) ==> fs[j].frame_id != id,
                frame_index(fs, id) == -1 ==> forall|j: int| 0 <= j < fs.len() ==> fs[j].frame_id != id,
            decreases self.frames@.len() - i,
        {
            assert(fs[i as int] == partial_view(self.frames@[i as int]));
            if self.frames[i].frame_id == id {
                return Some(i);
            }
            i = i + 1;
        }
        None
    }

    /// Receive a chunk (see `spec_push_chunk`): the bytes of the frame it
    /// completes, if any.
    pub fn push(&mut self, chunk: MediaChunk) -> (r: Option<Vec<u8>>)
        ensures
            ({
                let (fs, out) = spec_push_chunk(old(self).spec_frames(), chunk@);
                &&& final(self).spec_frames() == fs
                &&& match out {
                    None => r is None,
                    Some(b) => r matches Some(v) && v@ == b,
                }
            }),
    {
        let ghost fs0 = self.spec_frames();
        let ghost c = chunk@;
        let idx = match self.find(chunk.frame_id) {
            Some(i) => i,
            None => {
                let nf = PartialFrame { frame_id: chunk.frame_id, total: chunk.total, pieces: Vec::new() };
                assert(partial_view(nf).pieces =~= Seq::<PieceView>::empty());
                self.frames.push(nf);
                proof {
                    assert(self.spec_frames() =~= fs0.push(FrameView { frame_id: c.frame_id, total: c.total, pieces: Seq::empty() }));
                }
                self.frames.len() - 1
            },
        };
        let ghost fs1 = self.spec_frames();
        let mut f = PartialFrame { frame_id: 0, total: 0, pieces: Vec::new() };
        self.frames.set_and_swap(idx, &mut f);
        let ghost f_old = partial_view(f);
        assert(f_old == fs1[idx as int]);
        insert_piece_into(&mut f.pieces, chunk.offset, chunk.data);
        let ghost f2 = partial_view(f);
        assert(f2 == FrameView { pieces: insert_piece(f_old.pieces, c.offset, c.data), ..f_old });
        if chunk.total == 0 {
            self.frames.set_and_swap(idx, &mut f);
            proof { assert(self.spec_frames() =~= fs1.update(idx as int, f2)); }
            return None;
        }
        if !pieces_complete(&f.pieces, f.total) {
            self.frames.set_and_swap(idx, &mut f);
            proof { assert(self.spec_frames() =~= fs1.update(idx as int, f2)); }
            return None;
        }
        let out = concat_pieces(&f.pieces);
        let ghost before_remove = self.frames@;
        let _gone = self.frames.remove(idx);
        proof {
            assert(self.spec_frames() =~= fs1.update(idx as int, f2).remove(idx as int));
        }
        if self.frames.len() > MAX_PARTIAL_FRAMES {
            self.frames = Vec::new();
            assert(self.spec_frames() =~= Seq::<FrameView>::empty());
        }
        Some(out)
    }
}

fn insert_piece_into(pieces: &mut Vec<(u32, Vec<u8>)>, off: u32, data: Vec<u8>)
    ensures
        final(pieces)@.map_values(|p: (u32, Vec<u8>)| piece_view(p))
            == insert_piece(old(pieces)@.map_values(|p: (u32, Vec<u8>)| piece_view(p)), off, data@),
{
    let ghost ps = pieces@.map_values(|p: (u32, Vec<u8>)| piece_view(p));
    let mut k: usize = 0;
    while k < pieces.len() && pieces[k].0 < off
        invariant
            k <= pieces@.len(),
            ps == pieces@.map_values(|p: (u32, Vec<u8>)| piece_view(p)),
            forall|j: int| 0 <= j < k ==> ps[j].0 < off,
        decreases pieces@.len() - k,
    {
        k = k + 1;
    }
    proof { lemma_lower_bound(ps, off, k as int); }
    let ghost d = data@;
    if k < pieces.len() && pieces[k].0 == off {
        let mut p = (off, data);
        pieces.set_and_swap(k, &mut p);
        assert(pieces@.map_values(|p: (u32, Vec<u8>)| piece_view(p)) =~= ps.update(k as int, (off, d)));
    } else {
        pieces.insert(k, (off, data));
        assert(pieces@.map_values(|p: (u32, Vec<u8>)| piece_view(p)) =~= ps.insert(k as int, (off, d)));
    }
}

proof fn lemma_pieces_len_prefix(ps: Seq<PieceView>, i: int)
    requires
        0 <= i <= ps.len(),
    ensures
        pieces_len(ps.take(i)) <= pieces_len(ps),
    decreases ps.len() - i,
{
    if i < ps.len() {
        lemma_pieces_len_prefix(ps, i + 1);
        assert(ps.take(i + 1).drop_last() =~= ps.take(i));
    } else {
        assert(ps.take(i) =~= ps);
    }
}

fn pieces_complete(pieces: &Vec<(u32, Vec<u8>)>, total: u32) -> (r: bool)
    ensures
        r == (pieces_len(pieces@.map_values(|p: (u32, Vec<u8>)| piece_view(p))) == total),
{
    let ghost ps = pieces@.map_values(|p: (u32, Vec<u8>)| piece_view(p));
    let mut sum: u64 = 0;
    let mut i: usize = 0;
    while i < pieces.len()
        invariant
            i <= pieces@.len(),
            ps == pieces@.map_values(|p: (u32, Vec<u8>)| piece_view(p)),
            sum == pieces_len(ps.take(i as int)),
            sum <= u32::MAX,
        decreases pieces@.len() - i,
    {
        assert(ps.take(i + 1).drop_last() =~= ps.take(i as int));
        assert(ps[i as int].1 == pieces@[i as int].1@);
        let n = pieces[i].1.len();
        if n as u64 > 0xffff_ffffu64 - sum {
            proof { lemma_pieces_len_prefix(ps, i + 1); }
            return false;
        }
        sum = sum + n as u64;
        i = i + 1;
    }
    assert(ps.take(i as int) =~= ps);
    sum == total as u64
}

fn concat_pieces(pieces: &Vec<(u32, Vec<u8>)>) -> (out: Vec<u8>)
    ensures
        out@ == pieces_concat(pieces@.map_values(|p: (u32, Vec<u8>)| piece_view(p))),
{
    let ghost ps = pieces@.map_values(|p: (u32, Vec<u8>)| piece_view(p));
    let mut out: Vec<u8> = Vec::new();
    let mut i: usize = 0;
    while i < pieces.len()
        invariant
            i <= pieces@.len(),
            ps == pieces@.map_values(|p: (u32, Vec<u8>)| piece_view(p)),
            out@ == pieces_concat(ps.take(i as int)),
        decreases pieces@.len() - i,
    {
        assert(ps.take(i + 1).drop_last() =~= ps.take(i as int));
        assert(ps[i as int].1 == pieces@[i as int].1@);
        bytes::push_all(&mut out, pieces[i].1.as_slice());
        i = i + 1;
    }
    assert(ps.take(i as int) =~= ps);
    out
}

// ── STUN construction / parsing ─────────────────────────────────────────────

/// A STUN attribute.
pub struct StunAttr {
    pub kind: u16,
    pub value: Vec<u8>,
}

/// Abstract attribute: its type and value.
pub open spec fn attr_view(a: StunAttr) -> (u16, Seq<u8>) {
    (a.kind, a.value@)
}

/// Abstract attribute list.
pub open spec fn attrs_view(a: Seq<StunAttr>) -> Seq<(u16, Seq<u8>)> {
    Seq::new(a.len(), |i: int| attr_view(a[i]))
}

/// Zero bytes needed to bring `n` up to a multiple of 4.
pub open spec fn pad4(n: int) -> int {
    if n % 4 == 0 { 0 } else { 4 - n % 4 }
}

/// An attribute on the wire: type, value length, value, zero padding.
pub open spec fn attr_bytes(a: (u16, Seq<u8>)) -> Seq<u8> {
    bytes::be16(a.0) + bytes::be16(a.1.len() as u16) + a.1 + bytes::zeros(pad4(a.1.len() as int) as nat)
}

/// The attributes of a message on the wire, in order.
pub open spec fn stun_body(attrs: Seq<(u16, Seq<u8>)>) -> Seq<u8>
    decreases attrs.len(),
{
    if attrs.len() == 0 {
        seq![]
    } else {
        stun_body(attrs.drop_last()) + attr_bytes(attrs.last())
    }
}

/// A STUN message: type (top two bits cleared), body length, magic cookie,
/// transaction id and body.
pub open spec fn spec_stun_encode(msg_type: u16, tid: Seq<u8>, attrs: Seq<(u16, Seq<u8>)>) -> Seq<u8> {
    let body = stun_body(attrs);
    let len = body.len() as u16;
    seq![((msg_type >> 8u16) & 0x3fu16) as u8, (msg_type & 0xffu16) as u8, (len >> 8u16) as u8, (len & 0xffu16) as u8]
        + bytes::be32(MAGIC_COOKIE) + tid + body
}

/// The attributes found from offset `off` up to `end`: each is read from its
/// 4-byte header, its value is cut at `end`, and the next one starts at the
/// following multiple of 4.
pub open spec fn parse_attrs(buf: Seq<u8>, off: int, end: int) -> Seq<(u16, Seq<u8>)>
    decreases (if off < end { end - off } else { 0 }),
{
    if off < 0 || off + 4 > end {
        seq![]
    } else {
        let kind = bytes::read_be16(buf, off);
        let alen = bytes::read_be16(buf, off + 2) as int;
        let start = off + 4;
        let stop = if start + alen < end { start + alen } else { end };
        let next = start + alen + pad4(start + alen);
        proof {
            assert(0 <= alen);
            assert(0 <= pad4(start + alen));
            assert(next > off);
        }
        seq![(kind, buf.subrange(start, stop))] + parse_attrs(buf, next, end)
    }
}

/// The message type, transaction id and attributes of a STUN message, or
/// `None` when `buf` is shorter than its header or its stated length.
pub open spec fn spec_stun_parse(buf: Seq<u8>) -> Option<(u16, Seq<u8>, Seq<(u16, Seq<u8>)>)> {
    if buf.len() < 20 {
        None
    } else {
        let msg_type = (((buf[0] & 0x3fu8) as u16) << 8u16) | (buf[1] as u16);
        let len = bytes::read_be16(buf, 2) as int;
        if buf.len() < 20 + len {
            None
        } else {
            Some((msg_type, buf.subrange(8, 20), parse_attrs(buf, 20, 20 + len)))
        }
    }
}

/// The attributes before position `i` encode to no more bytes than all of
/// them.
proof fn lemma_stun_body_prefix(a: Seq<(u16, Seq<u8>)>, i: int)
    requires
        0 <= i <= a.len(),
    ensures
        stun_body(a.take(i)).len() <= stun_body(a).len(),
    decreases a.len(),
{
    if i < a.len() {
        assert(a.drop_last().take(i) =~= a.take(i));
        lemma_stun_body_prefix(a.drop_last(), i);
    } else {
        assert(a.take(i) =~= a);
    }
}

/// The STUN message of type `msg_type` (its top two bits cleared),
/// transaction id `tid` and attributes `attrs` (each value length written
/// as 16 bits). When every value fits 16 bits and the padded attributes fit
/// the 16-bit length field, parsing the message gives back the type, the
/// transaction id and the attributes.
pub fn stun_encode(msg_type: u16, tid: [u8; 12], attrs: &Vec<StunAttr>) -> (out: Vec<u8>)
    requires
        stun_body(attrs_view(attrs@)).len() + 20 <= usize::MAX,
    ensures
        out@ == spec_stun_encode(msg_type, tid@, attrs_view(attrs@)),
        values_fit(attrs_view(attrs@)) && stun_body(attrs_view(attrs@)).len() < 65536 ==>
            spec_stun_parse(out@) == Some((msg_type & 0x3fffu16, tid@, attrs_view(attrs@))),
{
    proof {
        if values_fit(attrs_view(attrs@)) && stun_body(attrs_view(attrs@)).len() < 65536 {
            lemma_stun_round_trip(msg_type, tid@, attrs_view(attrs@));
        }
    }
    let ghost all = attrs_view(attrs@);
    let mut body: Vec<u8> = Vec::new();
    let mut i: usize = 0;
    while i < attrs.len()
        invariant
            all == attrs_view(attrs@),
            stun_body(all).len() + 20 <= usize::MAX,
            i <= attrs@.len(),
            body@ == stun_body(all.take(i as int)),
            body@.len() % 4 == 0,
        decreases attrs@.len() - i,
    {
        proof { lemma_stun_body_prefix(all, i + 1); }
        let a = &attrs[i];
        let ghost before = body@;
        proof {
            assert(all.take(i + 1).drop_last() =~= all.take(i as int));
            assert(all.take(i + 1).last() == attr_view(attrs@[i as int]));
            assert(stun_body(all.take(i + 1)) == before + attr_bytes(attr_view(attrs@[i as int])));
        }
        bytes::push_be16(&mut body, a.kind);
        bytes::push_be16(&mut body, a.value.len() as u16);
        bytes::push_all(&mut body, a.value.as_slice());
        let ghost mid = body@;
        let pad: usize = if body.len() % 4 == 0 { 0 } else { 4 - body.len() % 4 };
        let mut j: usize = 0;
        while j < pad
            invariant
                j <= pad <= 3,
                body@ == mid + bytes::zeros(j as nat),
            decreases pad - j,
        {
            body.push(0u8);
            j = j + 1;
            assert(body@ =~= mid + bytes::zeros(j as nat));
        }
        proof {
            assert(mid.len() == before.len() + 4 + a.value@.len());
            assert(body@.len() - mid.len() == pad4(a.value@.len() as int));
            assert(body@ =~= before + attr_bytes(attr_view(attrs@[i as int])));
        }
        i = i + 1;
    }
    assert(all.take(i as int) =~= all);
    let len = body.len() as u16;
    let mut buf: Vec<u8> = Vec::with_capacity(20 + body.len());
    buf.push(((msg_type >> 8u16) & 0x3fu16) as u8);
    buf.push((msg_type & 0xffu16) as u8);
    buf.push((len >> 8u16) as u8);
    buf.push((len & 0xffu16) as u8);
    bytes::push_be32(&mut buf, MAGIC_COOKIE);
    bytes::push_all(&mut buf, &tid);
    bytes::push_all(&mut buf, body.as_slice());
    assert(buf@ =~= spec_stun_encode(msg_type, tid@, attrs_view(attrs@)));
    buf
}

/// Parse a STUN message into its type, transaction id and attributes.
/// The type, transaction id and attributes of a STUN message (see
/// `spec_stun_parse`); `None` when it is shorter than its header or its
/// stated length.
pub fn stun_parse(buf: &[u8]) -> (r: Option<(u16, [u8; 12], Vec<StunAttr>)>)
    requires
        buf@.len() <= usize::MAX / 2,
    ensures
        match spec_stun_parse(buf@) {
            None => r is None,
            Some((t, tid, attrs)) => r matches Some((t2, tid2, v)) && t2 == t && tid2@ == tid && attrs_view(v@) == attrs,
        },
{
    if buf.len() < 20 {
        return None;
    }
    let msg_type = (((buf[0] & 0x3fu8) as u16) << 8u16) | (buf[1] as u16);
    let len = (((buf[2] as u16) << 8u16) | (buf[3] as u16)) as usize;
    if buf.len() < 20 + len {
        return None;
    }
    let mut tid = [0u8; 12];
    let mut k: usize = 0;
    while k < 12
        invariant
            k <= 12,
            buf@.len() >= 20,
            forall|j: int| 0 <= j < k ==> tid@[j] == buf@[8 + j],
        decreases 12 - k,
    {
        tid[k] = buf[8 + k];
        k = k + 1;
    }
    assert(tid@ =~= buf@.subrange(8, 20));
    let mut attrs: Vec<StunAttr> = Vec::new();
    let mut off: usize = 20;
    let end_all: usize = 20 + len;
    while off + 4 <= end_all
        invariant
            end_all <= buf@.len() <= usize::MAX / 2,
            20 <= off <= end_all + 65540,
            attrs_view(attrs@) + parse_attrs(buf@, off as int, end_all as int) == parse_attrs(buf@, 20, end_all as int),
        decreases end_all + 65540 - off,
    {
        let kind = ((buf[off] as u16) << 8u16) | (buf[off + 1] as u16);
        let alen = (((buf[off + 2] as u16) << 8u16) | (buf[off + 3] as u16)) as usize;
        let start = off + 4;
        let stop = if start + alen < end_all { start + alen } else { end_all };
        let value = bytes::copy_range(buf, start, stop);
        let ghost before = attrs_view(attrs@);
        attrs.push(StunAttr { kind, value });
        let x = start + alen;
        let next = if x % 4 == 0 { x } else { x + (4 - x % 4) };
        proof {
            assert(attrs_view(attrs@) =~= before.push((kind, buf@.subrange(start as int, stop as int))));
            assert(parse_attrs(buf@, off as int, end_all as int) == seq![(kind, buf@.subrange(start as int, stop as int))] + parse_attrs(buf@, next as int, end_all as int));
            assert(attrs_view(attrs@) + parse_attrs(buf@, next as int, end_all as int) =~= before + parse_attrs(buf@, off as int, end_all as int));
        }
        off = next;
    }
    assert(attrs_view(attrs@) =~= attrs_view(attrs@) + parse_attrs(buf@, off as int, end_all as int));
    Some((msg_type, tid, attrs))
}

proof fn lemma_body_cons(a: (u16, Seq<u8>), rest: Seq<(u16, Seq<u8>)>)
    ensures
        stun_body(seq![a] + rest) == attr_bytes(a) + stun_body(rest),
    decreases rest.len(),
{
    if rest.len() == 0 {
        assert(seq![a] + rest =~= seq![a]);
        assert(seq![a].drop_last() =~= Seq::<(u16, Seq<u8>)>::empty());
        assert(stun_body(Seq::<(u16, Seq<u8>)>::empty()) =~= Seq::<u8>::empty());
        assert(stun_body(seq![a]) =~= attr_bytes(a));
        assert(attr_bytes(a) + stun_body(rest) =~= attr_bytes(a));
    } else {
        let all = seq![a] + rest;
        assert(all.drop_last() =~= seq![a] + rest.drop_last());
        lemma_body_cons(a, rest.drop_last());
        assert(all.last() == rest.last());
        assert(stun_body(all) =~= attr_bytes(a) + stun_body(rest));
    }
}

/// Every attribute value is short enough for its 16-bit length field.
pub open spec fn values_fit(attrs: Seq<(u16, Seq<u8>)>) -> bool {
    forall|i: int| 0 <= i < attrs.len() ==> (#[trigger] attrs[i]).1.len() < 65536
}

proof fn lemma_parse_body(buf: Seq<u8>, off: int, attrs: Seq<(u16, Seq<u8>)>)
    requires
        off >= 0,
        off % 4 == 0,
        values_fit(attrs),
        off + stun_body(attrs).len() <= buf.len(),
        buf.subrange(off, off + stun_body(attrs).len()) == stun_body(attrs),
    ensures
        parse_attrs(buf, off, off + stun_body(attrs).len()) == attrs,
    decreases attrs.len(),
{
    let body = stun_body(attrs);
    let end = off + body.len();
    if attrs.len() == 0 {
        assert(parse_attrs(buf, off, end) =~= attrs);
    } else {
        let a = attrs[0];
        let rest = attrs.drop_first();
        assert(attrs =~= seq![a] + rest);
        lemma_body_cons(a, rest);
        let ab = attr_bytes(a);
        let vlen = a.1.len() as int;
        assert(vlen < 65536);
        assert(body == ab + stun_body(rest));
        assert(ab.len() == 4 + vlen + pad4(vlen));
        assert(buf[off] == body[0] && buf[off + 1] == body[1]);
        assert(buf[off + 2] == body[2] && buf[off + 3] == body[3]);
        bytes::lemma_be16_roundtrip(a.0);
        bytes::lemma_be16_roundtrip(a.1.len() as u16);
        assert(bytes::read_be16(buf, off) == a.0);
        assert(bytes::read_be16(buf, off + 2) as int == vlen);
        let start = off + 4;
        assert(buf.subrange(start, start + vlen) =~= a.1) by {
            assert forall|i: int| 0 <= i < vlen implies buf.subrange(start, start + vlen)[i] == a.1[i] by {
                assert(buf[start + i] == body[4 + i]);
                assert(body[4 + i] == ab[4 + i]);
            }
        }
        assert((start + vlen) % 4 == vlen % 4);
        let next = start + vlen + pad4(start + vlen);
        assert(next == off + ab.len());
        assert(next % 4 == 0);
        assert(buf.subrange(next, next + stun_body(rest).len()) =~= stun_body(rest)) by {
            assert forall|i: int| 0 <= i < stun_body(rest).len() implies buf.subrange(next, next + stun_body(rest).len())[i] == stun_body(rest)[i] by {
                assert(buf[next + i] == body[ab.len() + i]);
            }
        }
        assert(values_fit(rest)) by {
            assert forall|i: int| 0 <= i < rest.len() implies (#[trigger] rest[i]).1.len() < 65536 by {
                assert(rest[i] == attrs[i + 1]);
            }
        }
        lemma_parse_body(buf, next, rest);
        assert(next + stun_body(rest).len() == end);
        assert(parse_attrs(buf, off, end) =~= seq![a] + rest);
    }
}

proof fn lemma_msg_type(t: u16)
    ensures
        ((((((t >> 8u16) & 0x3fu16) as u8) & 0x3fu8) as u16) << 8u16) | (((t & 0xffu16) as u8) as u16) == t & 0x3fffu16,
{
    assert(((((((t >> 8u16) & 0x3fu16) as u8) & 0x3fu8) as u16) << 8u16) | (((t & 0xffu16) as u8) as u16) == t & 0x3fffu16) by (bit_vector);
}

/// Parsing an encoded STUN message gives back its type (without the two
/// top bits, which the encoding clears), transaction id and attributes,
/// when each value and the whole body fit their 16-bit length fields.
pub proof fn lemma_stun_round_trip(msg_type: u16, tid: Seq<u8>, attrs: Seq<(u16, Seq<u8>)>)
    requires
        tid.len() == 12,
        values_fit(attrs),
        stun_body(attrs).len() < 65536,
    ensures
        spec_stun_parse(spec_stun_encode(msg_type, tid, attrs)) == Some((msg_type & 0x3fffu16, tid, attrs)),
{
    let body = stun_body(attrs);
    let m = spec_stun_encode(msg_type, tid, attrs);
    let len = body.len() as u16;
    lemma_msg_type(msg_type);
    bytes::lemma_be16_roundtrip(len);
    assert(bytes::read_be16(m, 2) == len);
    assert(m.subrange(8, 20) =~= tid);
    assert(m.subrange(20, (20 + body.len()) as int) =~= body);
    lemma_parse_body(m, 20, attrs);
}

// ── Candidates and addresses ────────────────────────────────────────────────

/// An IP address.
#[derive(Debug, Clone, Copy, PartialEq, Eq, Hash)]
pub enum IpAddress {
    V4([u8; 4]),
    V6([u8; 16]),
}

/// A transport address: IP address and port.
#[derive(Debug, Clone, Copy, PartialEq, Eq, Hash)]
pub struct PeerAddr {
    pub ip: IpAddress,
    pub port: u16,
}

/// Abstract address: whether it is IPv6, its octets and its port.
pub struct AddrView {
    pub v6: bool,
    pub octets: Seq<u8>,
    pub port: u16,
}

impl View for PeerAddr {
    type V = AddrView;

    open spec fn view(&self) -> AddrView {
        match self.ip {
            IpAddress::V4(o) => AddrView { v6: false, octets: o@, port: self.port },
            IpAddress::V6(o) => AddrView { v6: true, octets: o@, port: self.port },
        }
    }
}

/// The kind of an ICE candidate.
#[derive(Debug, Clone, Copy, PartialEq, Eq, Structural)]
pub enum CandidateType {
    Host,
    Srflx,
    Relay,
}

/// A local or remote ICE candidate.
#[derive(Debug, Clone, Copy)]
pub struct IceCandidate {
    pub candidate_type: CandidateType,
    pub addr: PeerAddr,
    pub priority: u32,
}

impl IceCandidate {
    pub fn host(addr: PeerAddr) -> (r: Self)
        ensures
            r.candidate_type == CandidateType::Host && r.addr@ == addr@ && r.priority == 126,
    {
        IceCandidate { candidate_type: CandidateType::Host, addr, priority: 126 }
    }

    pub fn srflx(addr: PeerAddr) -> (r: Self)
        ensures
            r.candidate_type == CandidateType::Srflx && r.addr@ == addr@ && r.priority == 100,
    {
        IceCandidate { candidate_type: CandidateType::Srflx, addr, priority: 100 }
    }

    pub fn relay(addr: PeerAddr) -> (r: Self)
        ensures
            r.candidate_type == CandidateType::Relay && r.addr@ == addr@ && r.priority == 1,
    {
        IceCandidate { candidate_type: CandidateType::Relay, addr, priority: 1 }
    }
}

/// Whether `i` is the first position of `c` in `s`.
pub open spec fn is_first(s: Seq<u8>, c: u8, i: int) -> bool {
    0 <= i < s.len() && s[i] == c && forall|j: int| 0 <= j < i ==> s[j] != c
}

/// Whether `i` is the last position of `c` in `s`.
pub open spec fn is_last(s: Seq<u8>, c: u8, i: int) -> bool {
    0 <= i < s.len() && s[i] == c && forall|j: int| i < j < s.len() ==> s[j] != c
}

/// The first position of `c` in `s`, if `c` occurs.
pub open spec fn first_pos(s: Seq<u8>, c: u8) -> Option<int> {
    if exists|i: int| is_first(s, c, i) { Some(choose|i: int| is_first(s, c, i)) } else { None }
}

/// The last position of `c` in `s`, if `c` occurs.
pub open spec fn last_pos(s: Seq<u8>, c: u8) -> Option<int> {
    if exists|i: int| is_last(s, c, i) { Some(choose|i: int| is_last(s, c, i)) } else { None }
}

fn find_first(s: &[u8], c: u8) -> (r: Option<usize>)
    ensures
        match r {
            Some(i) => first_pos(s@, c) == Some(i as int) && i < s@.len(),
            None => first_pos(s@, c) is None && forall|j: int| 0 <= j < s@.len() ==> s@[j] != c,
        },
{
    let mut i: usize = 0;
    while i < s.len()
        invariant
            i <= s@.len(),
            forall|j: int| 0 <= j < i ==> s@[j] != c,
        decreases s@.len() - i,
    {
        if s[i] == c {
            assert(is_first(s@, c, i as int));
            let ghost k = choose|k: int| is_first(s@, c, k);
            assert(k == i as int) by {
                if k < i { assert(s@[k] != c); }
                if k > i { assert(s@[i as int] != c); }
            }
            return Some(i);
        }
        i = i + 1;
    }
    None
}

fn find_last(s: &[u8], c: u8) -> (r: Option<usize>)
    ensures
        match r {
            Some(i) => last_pos(s@, c) == Some(i as int) && i < s@.len(),
            None => last_pos(s@, c) is None,
        },
{
    let mut i: usize = s.len();
    while i > 0
        invariant
            i <= s@.len(),
            forall|j: int| i <= j < s@.len() ==> s@[j] != c,
        decreases i,
    {
        i = i - 1;
        if s[i] == c {
            assert(is_last(s@, c, i as int));
            let ghost k = choose|k: int| is_last(s@, c, k);
            assert(k == i as int) by {
                if k < i { assert(s@[i as int] != c); }
                if k > i { assert(s@[k] != c); }
            }
            return Some(i);
        }
    }
    None
}

/// The candidate kind a name stands for: "host", "srflx" or "relay".
pub open spec fn kind_named(k: Seq<u8>) -> Option<CandidateType> {
    if k == seq![104u8, 111, 115, 116] {
        Some(CandidateType::Host)
    } else if k == seq![115u8, 114, 102, 108, 120] {
        Some(CandidateType::Srflx)
    } else if k == seq![114u8, 101, 108, 97, 121] {
        Some(CandidateType::Relay)
    } else {
        None
    }
}

/// The name of a candidate kind.
pub open spec fn kind_name(t: CandidateType) -> Seq<u8> {
    match t {
        CandidateType::Host => seq![104u8, 111, 115, 116],
        CandidateType::Srflx => seq![115u8, 114, 102, 108, 120],
        CandidateType::Relay => seq![114u8, 101, 108, 97, 121],
    }
}

/// The parts of candidate text "kind,ip:port,priority": the kind, the
/// address text before the address's last colon, the port after it, and
/// the priority ("0" when the text has no second comma; anything after a
/// third comma is ignored). `None` when a separator is missing, the kind is
/// unknown, or a number does not parse or fit.
pub open spec fn spec_candidate_parts(s: Seq<u8>) -> Option<(CandidateType, Seq<u8>, u16, u32)> {
    match first_pos(s, 44) {
        None => None,
        Some(i1) => {
            let kind = s.take(i1);
            let r1 = s.skip(i1 + 1);
            let addr = match first_pos(r1, 44) { Some(i2) => r1.take(i2), None => r1 };
            let rest = match first_pos(r1, 44) { Some(i2) => r1.skip(i2 + 1), None => seq![48u8] };
            let prio_text = match first_pos(rest, 44) { Some(k) => rest.take(k), None => rest };
            match last_pos(addr, 58) {
                None => None,
                Some(j) => match (kind_named(kind), crate::settings::spec_parse_u64(addr.skip(j + 1)), crate::settings::spec_parse_u64(prio_text)) {
                    (Some(t), Some(port), Some(prio)) => if port <= u16::MAX && prio <= u32::MAX {
                        Some((t, addr.take(j), port as u16, prio as u32))
                    } else {
                        None
                    },
                    _ => None,
                },
            }
        },
    }
}

/// A candidate read from its text, with the address still as text.
pub struct CandidateParts {
    pub candidate_type: CandidateType,
    pub ip: Vec<u8>,
    pub port: u16,
    pub priority: u32,
}

fn kind_of_bytes(k: &[u8]) -> (r: Option<CandidateType>)
    ensures
        r == kind_named(k@),
{
    let host: [u8; 4] = [104, 111, 115, 116];
    let srflx: [u8; 5] = [115, 114, 102, 108, 120];
    let relay: [u8; 5] = [114, 101, 108, 97, 121];
    assert(host@ =~= seq![104u8, 111, 115, 116]);
    assert(srflx@ =~= seq![115u8, 114, 102, 108, 120]);
    assert(relay@ =~= seq![114u8, 101, 108, 97, 121]);
    if bytes::constant_time_eq(k, &host) {
        Some(CandidateType::Host)
    } else if bytes::constant_time_eq(k, &srflx) {
        Some(CandidateType::Srflx)
    } else if bytes::constant_time_eq(k, &relay) {
        Some(CandidateType::Relay)
    } else {
        None
    }
}

/// Read candidate text (see `spec_candidate_parts`); the address text is
/// left to be read as an IP address.
pub fn parse_candidate_parts(s: &str) -> (r: Option<CandidateParts>)
    ensures
        match spec_candidate_parts(s.spec_bytes()) {
            None => r is None,
            Some((t, ip, port, prio)) => r matches Some(p) && p.candidate_type == t && p.ip@ == ip
                && p.port == port && p.priority == prio,
        },
{
    let b = s.as_bytes();
    let n = b.len();
    let i1 = match find_first(b, 44) {
        Some(i) => i,
        None => return None,
    };
    let kind = bytes::copy_range(b, 0, i1);
    let r1 = bytes::copy_range(b, i1 + 1, n);
    assert(kind@ =~= b@.take(i1 as int));
    assert(r1@ =~= b@.skip(i1 + 1));
    let (addr, rest) = match find_first(r1.as_slice(), 44) {
        Some(i2) => {
            let a = bytes::copy_range(r1.as_slice(), 0, i2);
            let r = bytes::copy_range(r1.as_slice(), i2 + 1, r1.len());
            assert(a@ =~= r1@.take(i2 as int));
            assert(r@ =~= r1@.skip(i2 + 1));
            (a, r)
        },
        None => {
            let mut zero: Vec<u8> = Vec::new();
            zero.push(48u8);
            assert(zero@ =~= seq![48u8]);
            (r1, zero)
        },
    };
    let prio_text = match find_first(rest.as_slice(), 44) {
        Some(k) => {
            let t = bytes::copy_range(rest.as_slice(), 0, k);
            assert(t@ =~= rest@.take(k as int));
            t
        },
        None => rest,
    };
    let j = match find_last(addr.as_slice(), 58) {
        Some(j) => j,
        None => return None,
    };
    let port_text = bytes::copy_range(addr.as_slice(), j + 1, addr.len());
    let ip = bytes::copy_range(addr.as_slice(), 0, j);
    assert(port_text@ =~= addr@.skip(j + 1));
    assert(ip@ =~= addr@.take(j as int));
    let t = match kind_of_bytes(kind.as_slice()) {
        Some(t) => t,
        None => return None,
    };
    let port = match crate::settings::parse_u64_bytes(port_text.as_slice()) {
        Some(p) => p,
        None => return None,
    };
    let prio = match crate::settings::parse_u64_bytes(prio_text.as_slice()) {
        Some(p) => p,
        None => return None,
    };
    if port > 0xffff || prio > 0xffff_ffff {
        return None;
    }
    Some(CandidateParts { candidate_type: t, ip, port: port as u16, priority: prio as u32 })
}

/// The text of a candidate whose address reads `ip`:
/// "kind,ip:port,priority".
pub fn candidate_text(t: CandidateType, ip: &str, port: u16, priority: u32) -> (r: String)
    ensures
        r@ == primitives::ascii_chars(kind_name(t)) + ","@ + ip@ + ":"@
            + primitives::ascii_chars(crate::settings::decimal(port as nat)) + ","@
            + primitives::ascii_chars(crate::settings::decimal(priority as nat)),
{
    let kind = match t {
        CandidateType::Host => "host",
        CandidateType::Srflx => "srflx",
        CandidateType::Relay => "relay",
    };
    proof {
        reveal_strlit("host");
        reveal_strlit("srflx");
        reveal_strlit("relay");
    }
    assert(kind@ == primitives::ascii_chars(kind_name(t)));
    let p = crate::settings::format_u64(port as u64);
    let q = crate::settings::format_u64(priority as u64);
    String::from_str(kind).concat(",").concat(ip).concat(":").concat(p.as_str()).concat(",").concat(q.as_str())
}

/// Configuration of a self-hostable STUN/TURN relay.
#[derive(Debug, Clone)]
pub struct RelayConfig {
    pub stun_server: Option<String>,
    pub turn_server: Option<String>,
    pub turn_username: Option<String>,
    pub turn_password: Option<String>,
}

/// The magic cookie's bytes, which mask XOR-encoded IPv4 addresses.
pub open spec fn cookie_bytes() -> Seq<u8> {
    bytes::be32(MAGIC_COOKIE)
}

/// The address in a (XOR-)MAPPED-ADDRESS style attribute value: family at
/// byte 1, port at bytes 2..4 and the address from byte 4; the XOR form
/// masks the port with the cookie's top 16 bits and an IPv4 address with
/// the cookie.
pub open spec fn spec_parse_addr_attr(value: Seq<u8>, is_xor: bool) -> Option<AddrView> {
    if value.len() < 8 {
        None
    } else {
        let port = if is_xor { bytes::read_be16(value, 2) ^ 0x2112u16 } else { bytes::read_be16(value, 2) };
        if value[1] == 1 {
            let o = value.subrange(4, 8);
            Some(AddrView { v6: false, octets: if is_xor { bytes::xor_bytes(o, cookie_bytes()) } else { o }, port })
        } else if value[1] == 2 {
            if value.len() < 20 {
                None
            } else {
                Some(AddrView { v6: true, octets: value.subrange(4, 20), port })
            }
        } else {
            None
        }
    }
}

fn parse_addr_attr(value: &[u8], is_xor: bool) -> (r: Option<PeerAddr>)
    ensures
        match spec_parse_addr_attr(value@, is_xor) {
            None => r is None,
            Some(a) => r matches Some(p) && p@ == a,
        },
{
    if value.len() < 8 {
        return None;
    }
    let family = value[1];
    let mut port = ((value[2] as u16) << 8u16) | (value[3] as u16);
    if is_xor {
        port = port ^ ((MAGIC_COOKIE >> 16u32) as u16);
        assert(((MAGIC_COOKIE >> 16u32) as u16) == 0x2112u16) by (bit_vector);
    }
    if family == 1 {
        let mut o = [value[4], value[5], value[6], value[7]];
        if is_xor {
            let k = [0x21u8, 0x12u8, 0xA4u8, 0x42u8];
            assert(k@ =~= cookie_bytes()) by {
                assert(((MAGIC_COOKIE >> 24u32) as u8) == 0x21u8 && (((MAGIC_COOKIE >> 16u32) & 0xffu32) as u8) == 0x12u8
                    && (((MAGIC_COOKIE >> 8u32) & 0xffu32) as u8) == 0xA4u8 && ((MAGIC_COOKIE & 0xffu32) as u8) == 0x42u8) by (bit_vector);
            }
            let mut i: usize = 0;
            while i < 4
                invariant
                    i <= 4,
                    value@.len() >= 8,
                    k@ == cookie_bytes(),
                    forall|j: int| 0 <= j < i ==> o@[j] == value@[4 + j] ^ k@[j],
                    forall|j: int| i <= j < 4 ==> o@[j] == value@[4 + j],
                decreases 4 - i,
            {
                o[i] = o[i] ^ k[i];
                i = i + 1;
            }
            assert(o@ =~= bytes::xor_bytes(value@.subrange(4, 8), cookie_bytes()));
        } else {
            assert(o@ =~= value@.subrange(4, 8));
        }
        Some(PeerAddr { ip: IpAddress::V4(o), port })
    } else if family == 2 {
        if value.len() < 20 {
            return None;
        }
        let mut o = [0u8; 16];
        let mut i: usize = 0;
        while i < 16
            invariant
                i <= 16,
                value@.len() >= 20,
                forall|j: int| 0 <= j < i ==> o@[j] == value@[4 + j],
            decreases 16 - i,
        {
            o[i] = value[4 + i];
            i = i + 1;
        }
        assert(o@ =~= value@.subrange(4, 20));
        Some(PeerAddr { ip: IpAddress::V6(o), port })
    } else {
        None
    }
}

/// The REQUESTED-TRANSPORT attribute asking for UDP.
fn attr_requested_transport() -> (a: StunAttr)
    ensures
        attr_view(a) == (ATTR_REQUESTED_TRANSPORT, seq![0x11u8, 0u8, 0u8, 0u8]),
{
    let mut value: Vec<u8> = Vec::new();
    value.push(0x11u8);
    value.push(0u8);
    value.push(0u8);
    value.push(0u8);
    assert(value@ =~= seq![0x11u8, 0u8, 0u8, 0u8]);
    StunAttr { kind: ATTR_REQUESTED_TRANSPORT, value }
}

/// The binding request with transaction id `tid`.
pub fn binding_request(tid: [u8; 12]) -> (out: Vec<u8>)
    ensures
        out@ == spec_stun_encode(STUN_BINDING_REQUEST, tid@, Seq::empty()),
{
    let attrs: Vec<StunAttr> = Vec::new();
    assert(attrs_view(attrs@) =~= Seq::empty());
    stun_encode(STUN_BINDING_REQUEST, tid, &attrs)
}

/// The TURN allocate request for UDP with transaction id `tid`.
pub fn allocate_request(tid: [u8; 12]) -> (out: Vec<u8>)
    ensures
        out@ == spec_stun_encode(STUN_ALLOCATE_REQUEST, tid@, seq![(ATTR_REQUESTED_TRANSPORT, seq![0x11u8, 0u8, 0u8, 0u8])]),
{
    let mut attrs: Vec<StunAttr> = Vec::new();
    attrs.push(attr_requested_transport());
    let ghost a = seq![(ATTR_REQUESTED_TRANSPORT, seq![0x11u8, 0u8, 0u8, 0u8])];
    assert(attrs_view(attrs@) =~= a);
    assert(a.drop_last() =~= Seq::<(u16, Seq<u8>)>::empty());
    assert(pad4(4) == 0);
    assert(bytes::zeros(0).len() == 0);
    assert(attr_bytes(a.last()).len() == 8);
    assert(stun_body(a) == stun_body(a.drop_last()) + attr_bytes(a.last()));
    assert(stun_body(a).len() == 8);
    stun_encode(STUN_ALLOCATE_REQUEST, tid, &attrs)
}

/// The first attribute of `attrs` that is XOR-MAPPED-ADDRESS or
/// MAPPED-ADDRESS, read as an address.
pub open spec fn spec_mapped_address(attrs: Seq<(u16, Seq<u8>)>) -> Option<AddrView>
    decreases attrs.len(),
{
    if attrs.len() == 0 {
        None
    } else if attrs[0].0 == ATTR_XOR_MAPPED_ADDRESS {
        spec_parse_addr_attr(attrs[0].1, true)
    } else if attrs[0].0 == ATTR_MAPPED_ADDRESS {
        spec_parse_addr_attr(attrs[0].1, false)
    } else {
        spec_mapped_address(attrs.drop_first())
    }
}

/// The first XOR-RELAYED-ADDRESS attribute of `attrs`, read as an address.
pub open spec fn spec_relayed_address(attrs: Seq<(u16, Seq<u8>)>) -> Option<AddrView>
    decreases attrs.len(),
{
    if attrs.len() == 0 {
        None
    } else if attrs[0].0 == ATTR_XOR_RELAYED_ADDRESS {
        spec_parse_addr_attr(attrs[0].1, true)
    } else {
        spec_relayed_address(attrs.drop_first())
    }
}

/// What a received datagram says in answer to a request of type
/// `expect_type` with transaction id `tid`: `None` when it is not that
/// answer (keep waiting), otherwise the address it carries, if any.
pub open spec fn spec_answer_address(buf: Seq<u8>, expect_type: u16, tid: Seq<u8>, relayed: bool) -> Option<Option<AddrView>> {
    match spec_stun_parse(buf) {
        Some((t, id, attrs)) => if t == expect_type && id == tid {
            Some(if relayed { spec_relayed_address(attrs) } else { spec_mapped_address(attrs) })
        } else {
            None
        },
        None => None,
    }
}

/// Read the answer to a binding request (`relayed` false: the mapped
/// address) or to an allocate request (`relayed` true: the relayed address).
pub fn answer_address(buf: &[u8], expect_type: u16, tid: [u8; 12], relayed: bool) -> (r: Option<Option<PeerAddr>>)
    requires
        buf@.len() <= usize::MAX / 2,
    ensures
        match spec_answer_address(buf@, expect_type, tid@, relayed) {
            None => r is None,
            Some(None) => r == Some(None::<PeerAddr>),
            Some(Some(a)) => r matches Some(Some(p)) && p@ == a,
        },
{
    match stun_parse(buf) {
        Some((t, id, attrs)) => {
            let same = bytes::constant_time_eq(&id, &tid);
            if t != expect_type || !same {
                return None;
            }
            let mut i: usize = 0;
            assert(attrs_view(attrs@).skip(0) =~= attrs_view(attrs@));
            while i < attrs.len()
                invariant
                    i <= attrs@.len(),
                    spec_answer_address(buf@, expect_type, tid@, relayed) == Some(
                        if relayed { spec_relayed_address(attrs_view(attrs@).skip(i as int)) }
                        else { spec_mapped_address(attrs_view(attrs@).skip(i as int)) }),
                decreases attrs@.len() - i,
            {
                let a = &attrs[i];
                assert(attrs_view(attrs@).skip(i as int)[0] == attr_view(attrs@[i as int]));
                assert(attrs_view(attrs@).skip(i as int).drop_first() =~= attrs_view(attrs@).skip(i + 1));
                if relayed {
                    if a.kind == ATTR_XOR_RELAYED_ADDRESS {
                        return Some(parse_addr_attr(a.value.as_slice(), true));
                    }
                } else {
                    if a.kind == ATTR_XOR_MAPPED_ADDRESS {
                        return Some(parse_addr_attr(a.value.as_slice(), true));
                    }
                    if a.kind == ATTR_MAPPED_ADDRESS {
                        return Some(parse_addr_attr(a.value.as_slice(), false));
                    }
                }
                i = i + 1;
            }
            Some(None)
        },
        None => None,
    }
}

/// Whether a received datagram is the binding response to `tid`.
pub fn is_binding_response(buf: &[u8], tid: [u8; 12]) -> (r: bool)
    requires
        buf@.len() <= usize::MAX / 2,
    ensures
        r == (spec_answer_address(buf@, STUN_BINDING_RESPONSE, tid@, false) is Some),
{
    answer_address(buf, STUN_BINDING_RESPONSE, tid, false).is_some()
}

/// SHA-256 of `bytes`.
pub fn sha256(bytes: &[u8]) -> (r: [u8; 32])
    ensures
        r@ == primitives::sha256_digest(bytes@),
{
    let out = primitives::sha256(bytes);
    let mut arr = [0u8; 32];
    let mut i: usize = 0;
    while i < 32
        invariant
            i <= 32,
            out@.len() == 32,
            forall|j: int| 0 <= j < i ==> arr@[j] == out@[j],
        decreases 32 - i,
    {
        arr[i] = out[i];
        i = i + 1;
    }
    assert(arr@ =~= out@);
    arr
}

} // verus!
