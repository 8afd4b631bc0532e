//! Splitting one filled read-buffer into the captured frames it contains.
//!
//! On the packet-filter device family each kernel read may hold several
//! records, each led by a fixed-size header that gives the header length
//! and the payload length; records are padded to a word boundary.  On the
//! link-layer socket family one read is exactly one frame.

use vstd::prelude::*;

verus! {

/// Size in bytes of the packet-filter record header: an 8-byte timestamp,
/// a 4-byte captured length, a 4-byte payload length and a 2-byte header
/// length, laid out in that order.
pub const BPF_HDR_SIZE: usize = 18;

/// Byte offset of the 4-byte payload-length field inside the record header.
pub const BPF_DATALEN_OFFSET: usize = 12;

/// Byte offset of the 2-byte header-length field inside the record header.
pub const BPF_HDRLEN_OFFSET: usize = 16;

/// Records are padded so that the next one starts on this word boundary.
pub const BPF_ALIGNMENT: usize = 4;

/// A 16-bit little-endian field read from a byte sequence.
pub open spec fn le16(b: Seq<u8>, i: int) -> int {
    b[i] as int + 256 * (b[i + 1] as int)
}

/// A 32-bit little-endian field read from a byte sequence.
pub open spec fn le32(b: Seq<u8>, i: int) -> int {
    b[i] as int + 256 * (b[i + 1] as int) + 65536 * (b[i + 2] as int) + 16777216 * (b[i + 3] as int)
}

/// `x` rounded up to the next multiple of the record alignment.
pub open spec fn bpf_align(x: int) -> int {
    ((x + 3) / 4) * 4
}

/// The frame ranges that packet-filter framing yields from buffer `b` with
/// valid length `len`, starting at cursor `off`.  A record whose header does
/// not fit, whose header length is shorter than the fixed header, or whose
/// end would exceed the valid length ends the sequence.
pub open spec fn record_ranges_from(b: Seq<u8>, len: int, off: int) -> Seq<(int, int)>
    decreases len - off when 0 <= off
{
    if off >= len || off + BPF_HDR_SIZE > len {
        seq![]
    } else {
        let h = le16(b, off + BPF_HDRLEN_OFFSET as int);
        let d = le32(b, off + BPF_DATALEN_OFFSET as int);
        if h < BPF_HDR_SIZE || off + h + d > len {
            seq![]
        } else {
            let next = off + bpf_align(h + d);
            if next >= len {
                seq![(off + h, off + h + d)]
            } else {
                seq![(off + h, off + h + d)] + record_ranges_from(b, len, next)
            }
        }
    }
}

/// How a filled buffer is split into frames: the packet-filter family
/// packs several self-describing records into one read, the link-layer
/// socket family delivers the whole valid region as one frame.
#[derive(Clone, Copy, Debug, PartialEq, Eq, Structural)]
pub enum Framing {
    PacketFilter,
    Whole,
}

/// The frame ranges that a reader with the given framing yields from
/// buffer `b` with valid length `len`, starting at cursor `off`.
pub open spec fn ranges_from(framing: Framing, b: Seq<u8>, len: int, off: int) -> Seq<(int, int)> {
    match framing {
        Framing::PacketFilter => record_ranges_from(b, len, off),
        Framing::Whole => if off >= len {
            seq![]
        } else {
            seq![(off, len)]
        },
    }
}

/// A view over one filled read-buffer: the buffer, its valid length and a
/// cursor.  It yields `(start, end)` byte ranges, one per captured frame,
/// and only ever reads the buffer; iterating never mutates it.
pub struct BufferReader<'a> {
    pub buffer: &'a [u8],
    pub len: usize,
    pub offset: usize,
    pub framing: Framing,
}

impl<'a> BufferReader<'a> {
    /// The reader's cursor and valid length stay within the buffer it views.
    pub open spec fn wf(self) -> bool {
        self.len <= self.buffer@.len()
    }

    pub open spec fn spec_buffer(self) -> Seq<u8> {
        self.buffer@
    }

    pub open spec fn spec_offset(self) -> usize {
        self.offset
    }

    pub open spec fn spec_framing(self) -> Framing {
        self.framing
    }

    /// The ranges this reader has yet to yield.
    pub open spec fn remaining_ranges(self) -> Seq<(int, int)> {
        ranges_from(self.framing, self.buffer@, self.len as int, self.offset as int)
    }

    /// A reader over `buffer` whose first `len` bytes are valid, using
    /// packet-filter framing.
    pub fn new(buffer: &'a [u8], len: usize) -> (r: BufferReader<'a>)
        requires
            len <= buffer@.len(),
        ensures
            r.wf(),
            r.spec_buffer() == buffer@,
            r.spec_offset() == 0,
            r.len == len,
            r.spec_framing() == Framing::PacketFilter,
    {
        BufferReader { buffer, len, offset: 0, framing: Framing::PacketFilter }
    }

    /// A reader that treats the whole valid region as one frame.
    pub fn new_whole(buffer: &'a [u8], len: usize) -> (r: BufferReader<'a>)
        requires
            len <= buffer@.len(),
        ensures
            r.wf(),
            r.spec_buffer() == buffer@,
            r.spec_offset() == 0,
            r.len == len,
            r.spec_framing() == Framing::Whole,
    {
        BufferReader { buffer, len, offset: 0, framing: Framing::Whole }
    }

    pub fn offset(&self) -> (r: usize)
        ensures
            r == self.spec_offset(),
    {
        self.offset
    }

    pub fn len(&self) -> (r: usize)
        ensures
            r == self.len,
    {
        self.len
    }

    /// The next frame range, or `None` once the cursor has passed the last
    /// whole record.  A truncated or malformed trailing record ends the
    /// sequence; it is never yielded.
    pub fn next(&mut self) -> (r: Option<(usize, usize)>)
        requires
            old(self).wf(),
        ensures
            final(self).wf(),
            final(self).spec_buffer() == old(self).spec_buffer(),
            final(self).len == old(self).len,
            final(self).spec_framing() == old(self).spec_framing(),
            match r {
                None => {
                    &&& old(self).remaining_ranges() == Seq::<(int, int)>::empty()
                    &&& final(self).spec_offset() == old(self).spec_offset()
                },
                Some((s, e)) => {
                    &&& old(self).remaining_ranges().len() > 0
                    &&& old(self).remaining_ranges()[0] == (s as int, e as int)
                    &&& final(self).remaining_ranges() == old(self).remaining_ranges().skip(1)
                    &&& s <= e <= old(self).len
                    &&& old(self).spec_offset() <= final(self).spec_offset() <= old(self).len
                },
            },
    {
        let len = self.len;
        let offset = self.offset;
        match self.framing {
            Framing::Whole => {
                if offset >= len {
                    None
                } else {
                    self.offset = len;
                    Some((offset, len))
                }
            },
            Framing::PacketFilter => {
                if offset >= len || len - offset < BPF_HDR_SIZE {
                    return None;
                }
                let h = read_le16(self.buffer, offset + BPF_HDRLEN_OFFSET);
                let d = read_le32(self.buffer, offset + BPF_DATALEN_OFFSET);
                if h < BPF_HDR_SIZE || h > len - offset || d > len - offset - h {
                    return None;
                }
                let rem = len - offset;
                let used = h + d;
                // The aligned advance is clamped to the valid length: past
                // it the tail is shorter than a record header either way.
                let next: usize = if rem - used < BPF_ALIGNMENT {
                    len
                } else {
                    let aligned = (used + (BPF_ALIGNMENT - 1)) / BPF_ALIGNMENT * BPF_ALIGNMENT;
                    if aligned >= rem {
                        len
                    } else {
                        offset + aligned
                    }
                };
                proof {
                    let b = self.buffer@;
                    let spec_next = offset + bpf_align(used as int);
                    assert(used <= bpf_align(used as int) < used + 4);
                    if next == len && spec_next < len {
                        // The record ends within one alignment step of the
                        // valid length: nothing more fits behind it.
                        assert(len - spec_next < BPF_HDR_SIZE);
                        assert(record_ranges_from(b, len as int, spec_next)
                            =~= Seq::<(int, int)>::empty());
                    }
                    assert(ranges_from(self.framing, b, len as int, next as int)
                        =~= old(self).remaining_ranges().skip(1));
                }
                self.offset = next;
                Some((offset + h, offset + h + d))
            },
        }
    }

    /// Drains the reader: every remaining frame range, in order.  The
    /// reader comes back exhausted.
    pub fn ranges(&mut self) -> (r: Vec<(usize, usize)>)
        requires
            old(self).wf(),
        ensures
            final(self).wf(),
            final(self).spec_buffer() == old(self).spec_buffer(),
            final(self).len == old(self).len,
            final(self).spec_framing() == old(self).spec_framing(),
            r@.map_values(|p: (usize, usize)| (p.0 as int, p.1 as int))
                == old(self).remaining_ranges(),
            final(self).remaining_ranges() == Seq::<(int, int)>::empty(),
    {
        let mut out: Vec<(usize, usize)> = Vec::new();
        loop
            invariant
                self.wf(),
                self.spec_buffer() == old(self).spec_buffer(),
                self.len == old(self).len,
                self.spec_framing() == old(self).spec_framing(),
                out@.map_values(|p: (usize, usize)| (p.0 as int, p.1 as int))
                    + self.remaining_ranges() == old(self).remaining_ranges(),
            ensures
                self.wf(),
                self.spec_buffer() == old(self).spec_buffer(),
                self.len == old(self).len,
                self.spec_framing() == old(self).spec_framing(),
                out@.map_values(|p: (usize, usize)| (p.0 as int, p.1 as int))
                    == old(self).remaining_ranges(),
                self.remaining_ranges() == Seq::<(int, int)>::empty(),
            decreases self.remaining_ranges().len(),
        {
            let ghost prev = out@;
            let ghost rem = self.remaining_ranges();
            match self.next() {
                Some(p) => {
                    out.push(p);
                    proof {
                        assert(out@.map_values(|q: (usize, usize)| (q.0 as int, q.1 as int))
                            =~= prev.map_values(|q: (usize, usize)| (q.0 as int, q.1 as int))
                                + seq![(p.0 as int, p.1 as int)]);
                        assert(seq![rem[0]] + rem.skip(1) =~= rem);
                        assert(out@.map_values(|q: (usize, usize)| (q.0 as int, q.1 as int))
                            + self.remaining_ranges() =~= old(self).remaining_ranges());
                    }
                },
                None => {
                    proof {
                        assert(out@.map_values(|q: (usize, usize)| (q.0 as int, q.1 as int))
                            =~= old(self).remaining_ranges());
                    }
                    break;
                },
            }
        }
        out
    }
}

/// Every range that packet-filter framing yields lies inside the valid
/// region, runs forward, and the ranges are strictly increasing and
/// pairwise disjoint: each record's payload ends before the next record's
/// payload starts.
pub proof fn lemma_record_ranges_wf(b: Seq<u8>, len: int, off: int)
    requires
        0 <= off,
    ensures
        ({
            let rs = record_ranges_from(b, len, off);
            &&& forall|i: int| 0 <= i < rs.len() ==> off < (#[trigger] rs[i]).0
            &&& forall|i: int| 0 <= i < rs.len() ==> (#[trigger] rs[i]).0 <= rs[i].1
            &&& forall|i: int| 0 <= i < rs.len() ==> (#[trigger] rs[i]).1 <= len
            &&& forall|i: int| 0 <= i < rs.len() - 1 ==> (#[trigger] rs[i]).1 < rs[i + 1].0
        }),
    decreases len - off
{
    let rs = record_ranges_from(b, len, off);
    if off >= len || off + BPF_HDR_SIZE > len {
    } else {
        let h = le16(b, off + BPF_HDRLEN_OFFSET as int);
        let d = le32(b, off + BPF_DATALEN_OFFSET as int);
        if h < BPF_HDR_SIZE || off + h + d > len {
        } else {
            let next = off + bpf_align(h + d);
            assert(h + d <= bpf_align(h + d));
            if next >= len {
            } else {
                lemma_record_ranges_wf(b, len, next);
                let rest = record_ranges_from(b, len, next);
                assert forall|i: int| 0 <= i < rs.len() implies off < (#[trigger] rs[i]).0
                    && rs[i].0 <= rs[i].1 && rs[i].1 <= len by {
                    if i > 0 {
                        assert(rs[i] == rest[i - 1]);
                    }
                }
                assert forall|i: int| 0 <= i < rs.len() - 1 implies (#[trigger] rs[i]).1
                    < rs[i + 1].0 by {
                    if i == 0 {
                        assert(rs[1] == rest[0]);
                        assert(next < rest[0].0);
                    } else {
                        assert(rs[i] == rest[i - 1]);
                        assert(rs[i + 1] == rest[i]);
                    }
                }
            }
        }
    }
}

/// For any buffer with a valid length, the ranges a packet-filter reader
/// yields are strictly increasing, pairwise non-overlapping, and each lies
/// within the valid region.
pub proof fn lemma_reader_ranges_wf(r: BufferReader)
    requires
        r.wf(),
        r.framing == Framing::PacketFilter,
    ensures
        ({
            let rs = r.remaining_ranges();
            &&& forall|i: int| 0 <= i < rs.len() ==> 0 <= (#[trigger] rs[i]).0
            &&& forall|i: int| 0 <= i < rs.len() ==> (#[trigger] rs[i]).0 <= rs[i].1
            &&& forall|i: int| 0 <= i < rs.len() ==> (#[trigger] rs[i]).1 <= r.len
            &&& forall|i: int| 0 <= i < rs.len() - 1 ==> (#[trigger] rs[i]).1 < rs[i + 1].0
        }),
{
    lemma_record_ranges_wf(r.buffer@, r.len as int, r.offset as int);
}

/// A sequence of `n` zero bytes.
pub open spec fn zeros(n: int) -> Seq<u8> {
    Seq::new(n as nat, |i: int| 0u8)
}

/// `x` written as two little-endian bytes.
pub open spec fn le16_bytes(x: int) -> Seq<u8> {
    seq![(x % 256) as u8, ((x / 256) % 256) as u8]
}

/// `x` written as four little-endian bytes.
pub open spec fn le32_bytes(x: int) -> Seq<u8> {
    seq![
        (x % 256) as u8,
        ((x / 256) % 256) as u8,
        ((x / 65536) % 256) as u8,
        ((x / 16777216) % 256) as u8,
    ]
}

/// One packet-filter record for `payload`: a zeroed timestamp, the captured
/// and payload lengths, the fixed header length, the payload itself, and
/// zero padding up to the alignment boundary.
pub open spec fn encode_record_spec(payload: Seq<u8>) -> Seq<u8> {
    let d = payload.len() as int;
    zeros(8) + le32_bytes(d) + le32_bytes(d) + le16_bytes(BPF_HDR_SIZE as int) + payload + zeros(
        bpf_align(BPF_HDR_SIZE + d) - (BPF_HDR_SIZE + d),
    )
}

/// A kernel-style read buffer holding one record per payload, in order.
pub open spec fn encode_buffer_spec(ps: Seq<Seq<u8>>) -> Seq<u8>
    decreases ps.len(),
{
    if ps.len() == 0 {
        seq![]
    } else {
        encode_record_spec(ps[0]) + encode_buffer_spec(ps.skip(1))
    }
}

/// Reading back the four little-endian bytes of `x` recovers `x`.
proof fn lemma_le32_roundtrip(x: int)
    requires
        0 <= x < 0x1_0000_0000,
    ensures
        x % 256 + 256 * ((x / 256) % 256) + 65536 * ((x / 65536) % 256) + 16777216 * ((x
            / 16777216) % 256) == x,
{
    assert(x % 256 + 256 * ((x / 256) % 256) + 65536 * ((x / 65536) % 256) + 16777216 * ((x
        / 16777216) % 256) == x) by (nonlinear_arith)
        requires
            0 <= x < 0x1_0000_0000,
    ;
}

/// The header fields of an encoded record read back as written, and the
/// payload sits right behind the fixed-size header.
proof fn lemma_record_fields(payload: Seq<u8>)
    requires
        payload.len() < 0x1_0000_0000,
    ensures
        ({
            let rec = encode_record_spec(payload);
            let d = payload.len() as int;
            &&& rec.len() == bpf_align(BPF_HDR_SIZE + d)
            &&& BPF_HDR_SIZE + d <= rec.len()
            &&& le16(rec, BPF_HDRLEN_OFFSET as int) == BPF_HDR_SIZE
            &&& le32(rec, BPF_DATALEN_OFFSET as int) == d
            &&& rec.subrange(BPF_HDR_SIZE as int, BPF_HDR_SIZE + d) == payload
        }),
{
    let rec = encode_record_spec(payload);
    let d = payload.len() as int;
    assert(d <= bpf_align(BPF_HDR_SIZE + d) - BPF_HDR_SIZE);
    assert(rec.len() == bpf_align(BPF_HDR_SIZE + d));
    assert(rec[16] == 18u8);
    assert(rec[17] == 0u8);
    assert(rec[12] == (d % 256) as u8);
    assert(rec[13] == ((d / 256) % 256) as u8);
    assert(rec[14] == ((d / 65536) % 256) as u8);
    assert(rec[15] == ((d / 16777216) % 256) as u8);
    lemma_le32_roundtrip(d);
    assert(le32(rec, BPF_DATALEN_OFFSET as int) == d);
    assert forall|j: int| 0 <= j < d implies rec[BPF_HDR_SIZE + j] == payload[j] by {}
    assert(rec.subrange(BPF_HDR_SIZE as int, BPF_HDR_SIZE + d) =~= payload);
}

/// A buffer that encodes at least one record is not empty.
proof fn lemma_encode_buffer_nonempty(ps: Seq<Seq<u8>>)
    requires
        ps.len() > 0,
    ensures
        encode_buffer_spec(ps).len() >= BPF_HDR_SIZE,
{
    assert(encode_record_spec(ps[0]).len() == bpf_align(BPF_HDR_SIZE + ps[0].len() as int));
}

/// Decoding a buffer that encodes `ps` yields exactly one range per
/// payload, and each range carves that payload back out of the buffer:
/// the packet-filter framing and the encoder are inverse.
pub proof fn lemma_encode_decode_from(b: Seq<u8>, ps: Seq<Seq<u8>>, off: int)
    requires
        0 <= off <= b.len(),
        b.subrange(off, b.len() as int) == encode_buffer_spec(ps),
        forall|i: int| 0 <= i < ps.len() ==> (#[trigger] ps[i]).len() < 0x1_0000_0000,
    ensures
        ({
            let rs = record_ranges_from(b, b.len() as int, off);
            &&& rs.len() == ps.len()
            &&& forall|i: int|
                0 <= i < ps.len() ==> b.subrange((#[trigger] rs[i]).0, rs[i].1) == ps[i]
        }),
    decreases ps.len(),
{
    let len = b.len() as int;
    let suffix = b.subrange(off, len);
    let rs = record_ranges_from(b, len, off);
    if ps.len() == 0 {
        assert(suffix.len() == len - off);
        assert(encode_buffer_spec(ps).len() == 0);
        assert(off == len);
    } else {
        let payload = ps[0];
        let d = payload.len() as int;
        let rec = encode_record_spec(payload);
        let rest = encode_buffer_spec(ps.skip(1));
        lemma_record_fields(payload);
        assert(suffix == rec + rest);
        assert forall|j: int| 0 <= j < rec.len() implies b[off + j] == rec[j] by {
            assert(suffix[j] == b[off + j]);
            assert((rec + rest)[j] == rec[j]);
        }
        assert(off + rec.len() <= len);
        let h = le16(b, off + BPF_HDRLEN_OFFSET as int);
        let d_read = le32(b, off + BPF_DATALEN_OFFSET as int);
        assert(h == le16(rec, BPF_HDRLEN_OFFSET as int));
        assert(d_read == le32(rec, BPF_DATALEN_OFFSET as int));
        assert(h == BPF_HDR_SIZE && d_read == d);
        assert(off + h + d <= len);
        let next = off + bpf_align(h + d);
        assert(next == off + rec.len());
        // The tail of the buffer behind this record encodes the remaining
        // payloads.
        assert(b.subrange(next, len) =~= encode_buffer_spec(ps.skip(1))) by {
            assert forall|j: int| 0 <= j < rest.len() implies b.subrange(next, len)[j]
                == rest[j] by {
                assert(b.subrange(next, len)[j] == b[next + j]);
                assert(suffix[rec.len() + j] == b[off + rec.len() + j]);
                assert((rec + rest)[rec.len() + j] == rest[j]);
            }
        }
        lemma_encode_decode_from(b, ps.skip(1), next);
        let rest_rs = record_ranges_from(b, len, next);
        if next >= len && ps.skip(1).len() > 0 {
            lemma_encode_buffer_nonempty(ps.skip(1));
            assert(false);
        }
        assert(b.subrange(off + h, off + h + d) =~= payload) by {
            assert forall|j: int| 0 <= j < d implies b.subrange(off + h, off + h + d)[j]
                == payload[j] by {
                assert(b[off + BPF_HDR_SIZE + j] == rec[BPF_HDR_SIZE + j]);
                assert(rec.subrange(BPF_HDR_SIZE as int, BPF_HDR_SIZE + d)[j] == payload[j]);
            }
        }
        if next >= len {
            assert(ps.skip(1).len() == 0);
            assert(rs =~= seq![(off + h, off + h + d)]);
        } else {
            assert(rs == seq![(off + h, off + h + d)] + rest_rs);
            assert forall|i: int| 0 <= i < ps.len() implies b.subrange(
                (#[trigger] rs[i]).0,
                rs[i].1,
            ) == ps[i] by {
                if i > 0 {
                    assert(rs[i] == rest_rs[i - 1]);
                    assert(ps[i] == ps.skip(1)[i - 1]);
                }
            }
        }
    }
}

/// A payload list can be encoded when every payload length fits the
/// 32-bit length field and the whole buffer fits in memory.
pub open spec fn encodable(ps: Seq<Seq<u8>>) -> bool {
    &&& forall|i: int| 0 <= i < ps.len() ==> (#[trigger] ps[i]).len() < 0x1_0000_0000
    &&& encode_buffer_spec(ps).len() <= usize::MAX
}

/// Appending one more payload extends the encoding by one record.
proof fn lemma_encode_take_snoc(ps: Seq<Seq<u8>>, i: int)
    requires
        0 <= i < ps.len(),
    ensures
        encode_buffer_spec(ps.take(i + 1)) == encode_buffer_spec(ps.take(i))
            + encode_record_spec(ps[i]),
    decreases i,
{
    if i == 0 {
        assert(ps.take(0) =~= Seq::<Seq<u8>>::empty());
        assert(ps.take(1).skip(1) =~= Seq::<Seq<u8>>::empty());
        assert(ps.take(1)[0] == ps[0]);
        assert(encode_buffer_spec(ps.take(1)) =~= encode_buffer_spec(ps.take(0))
            + encode_record_spec(ps[0]));
    } else {
        let tl = ps.skip(1);
        lemma_encode_take_snoc(tl, i - 1);
        assert(ps.take(i + 1).skip(1) =~= tl.take(i));
        assert(ps.take(i).skip(1) =~= tl.take(i - 1));
        assert(ps.take(i + 1)[0] == ps[0]);
        assert(ps.take(i)[0] == ps[0]);
        assert(tl[i - 1] == ps[i]);
        assert(encode_buffer_spec(ps.take(i + 1)) == encode_record_spec(ps[0])
            + encode_buffer_spec(tl.take(i)));
        assert(encode_buffer_spec(ps.take(i)) == encode_record_spec(ps[0])
            + encode_buffer_spec(tl.take(i - 1)));
        assert(encode_buffer_spec(ps.take(i + 1)) =~= encode_buffer_spec(ps.take(i))
            + encode_record_spec(ps[i]));
    }
}

/// One encoded record, as bytes.
#[verifier::rlimit(60)]
fn encode_record(payload: &Vec<u8>) -> (r: Vec<u8>)
    requires
        payload@.len() < 0x1_0000_0000,
    ensures
        r@ == encode_record_spec(payload@),
{
    let d = payload.len();
    let mut rec: Vec<u8> = Vec::new();
    let mut k: usize = 0;
    while k < 8
        invariant
            rec@ =~= zeros(k as int),
            k <= 8,
        decreases 8 - k,
    {
        rec.push(0);
        k = k + 1;
    }
    rec.push((d % 256) as u8);
    rec.push((d / 256 % 256) as u8);
    rec.push((d / 65536 % 256) as u8);
    rec.push((d / 16777216 % 256) as u8);
    rec.push((d % 256) as u8);
    rec.push((d / 256 % 256) as u8);
    rec.push((d / 65536 % 256) as u8);
    rec.push((d / 16777216 % 256) as u8);
    rec.push(18);
    rec.push(0);
    assert(rec@ =~= zeros(8) + le32_bytes(d as int) + le32_bytes(d as int) + le16_bytes(
        BPF_HDR_SIZE as int,
    ));
    let ghost header = rec@;
    let mut j: usize = 0;
    while j < d
        invariant
            j <= d,
            d == payload@.len(),
            rec@ =~= header + payload@.take(j as int),
        decreases d - j,
    {
        rec.push(payload[j]);
        j = j + 1;
    }
    assert(payload@.take(d as int) =~= payload@);
    let ghost with_payload = rec@;
    let used64 = BPF_HDR_SIZE as u64 + d as u64;
    let pad = ((BPF_ALIGNMENT as u64 - used64 % BPF_ALIGNMENT as u64) % BPF_ALIGNMENT as u64)
        as usize;
    assert(pad == bpf_align(BPF_HDR_SIZE + d) - (BPF_HDR_SIZE + d));
    let mut p: usize = 0;
    while p < pad
        invariant
            p <= pad,
            rec@ =~= with_payload + zeros(p as int),
        decreases pad - p,
    {
        rec.push(0);
        p = p + 1;
    }
    assert(rec@ =~= encode_record_spec(payload@));
    rec
}

/// Builds a synthetic kernel read-buffer holding one packet-filter record
/// per payload, in order.  Returns `None` exactly when a payload is too
/// long for the 32-bit length field or the buffer would not fit in memory.
pub fn encode_records(payloads: &Vec<Vec<u8>>) -> (r: Option<Vec<u8>>)
    ensures
        ({
            let ps = payloads@.map_values(|v: Vec<u8>| v@);
            match r {
                Some(v) => v@ == encode_buffer_spec(ps) && encodable(ps),
                None => !encodable(ps),
            }
        }),
{
    let ghost ps = payloads@.map_values(|v: Vec<u8>| v@);
    let mut out: Vec<u8> = Vec::new();
    let mut i: usize = 0;
    while i < payloads.len()
        invariant
            i <= payloads@.len(),
            ps == payloads@.map_values(|v: Vec<u8>| v@),
            out@ == encode_buffer_spec(ps.take(i as int)),
            forall|k: int| 0 <= k < i ==> (#[trigger] ps[k]).len() < 0x1_0000_0000,
        decreases payloads@.len() - i,
    {
        let payload = &payloads[i];
        if payload.len() as u64 >= 0x1_0000_0000u64 {
            proof {
                assert(ps[i as int] == payload@);
                assert(ps[i as int].len() >= 0x1_0000_0000);
            }
            return None;
        }
        let mut rec = encode_record(payload);
        proof {
            lemma_encode_take_snoc(ps, i as int);
        }
        out.append(&mut rec);
        i = i + 1;
    }
    proof {
        assert(ps.take(i as int) =~= ps);
    }
    let n = out.len();
    assert(encode_buffer_spec(ps).len() == n);
    Some(out)
}

/// Reads the 16-bit little-endian field at `i`.
pub fn read_le16(b: &[u8], i: usize) -> (r: usize)
    requires
        i + 2 <= b@.len(),
    ensures
        r == le16(b@, i as int),
        r < 65536,
{
    b[i] as usize + 256 * (b[i + 1] as usize)
}

/// Reads the 32-bit little-endian field at `i`.
pub fn read_le32(b: &[u8], i: usize) -> (r: usize)
    requires
        i + 4 <= b@.len(),
    ensures
        r == le32(b@, i as int),
        r < 0x1_0000_0000,
{
    b[i] as usize + 256 * (b[i + 1] as usize) + 65536 * (b[i + 2] as usize)
        + 16777216 * (b[i + 3] as usize)
}

} // verus!
