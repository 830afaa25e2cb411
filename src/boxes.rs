//! ISO BMFF box writer: big-endian integers and `[size][type][payload]` boxes.
use vstd::prelude::*;

verus! {

/// Box type `ftyp` as a big-endian FourCC.
pub const FTYP: u32 = 0x6674_7970;
/// Box type `moov`.
pub const MOOV: u32 = 0x6d6f_6f76;
/// Box type `mvhd`.
pub const MVHD: u32 = 0x6d76_6864;
/// Box type `mvex`.
pub const MVEX: u32 = 0x6d76_6578;
/// Box type `trex`.
pub const TREX: u32 = 0x7472_6578;
/// Box type `trak`.
pub const TRAK: u32 = 0x7472_616b;
/// Box type `tkhd`.
pub const TKHD: u32 = 0x746b_6864;
/// Box type `mdia`.
pub const MDIA: u32 = 0x6d64_6961;
/// Box type `mdhd`.
pub const MDHD: u32 = 0x6d64_6864;
/// Box type `hdlr`.
pub const HDLR: u32 = 0x6864_6c72;
/// Box type `minf`.
pub const MINF: u32 = 0x6d69_6e66;
/// Box type `vmhd`.
pub const VMHD: u32 = 0x766d_6864;
/// Box type `smhd`.
pub const SMHD: u32 = 0x736d_6864;
/// Box type `dinf`.
pub const DINF: u32 = 0x6469_6e66;
/// Box type `dref`.
pub const DREF: u32 = 0x6472_6566;
/// Box type `url ` (with a trailing space).
pub const URL: u32 = 0x7572_6c20;
/// Box type `stbl`.
pub const STBL: u32 = 0x7374_626c;
/// Box type `stsd`.
pub const STSD: u32 = 0x7374_7364;
/// Box type `avc1`.
pub const AVC1: u32 = 0x6176_6331;
/// Box type `avcC`.
pub const AVCC: u32 = 0x6176_6343;
/// Box type `stts`.
pub const STTS: u32 = 0x7374_7473;
/// Box type `stsc`.
pub const STSC: u32 = 0x7374_7363;
/// Box type `stsz`.
pub const STSZ: u32 = 0x7374_737a;
/// Box type `stco`.
pub const STCO: u32 = 0x7374_636f;
/// Box type `mp4a`.
pub const MP4A: u32 = 0x6d70_3461;
/// Box type `esds`.
pub const ESDS: u32 = 0x6573_6473;
/// Box type `moof`.
pub const MOOF: u32 = 0x6d6f_6f66;
/// Box type `mfhd`.
pub const MFHD: u32 = 0x6d66_6864;
/// Box type `traf`.
pub const TRAF: u32 = 0x7472_6166;
/// Box type `tfhd`.
pub const TFHD: u32 = 0x7466_6864;
/// Box type `tfdt`.
pub const TFDT: u32 = 0x7466_6474;
/// Box type `trun`.
pub const TRUN: u32 = 0x7472_756e;
/// Box type `mdat`.
pub const MDAT: u32 = 0x6d64_6174;

/// The two bytes of `x` in big-endian order.
pub open spec fn be16(x: u16) -> Seq<u8> {
    seq![(x >> 8u16) as u8, x as u8]
}

/// The four bytes of `x` in big-endian order.
pub open spec fn be32(x: u32) -> Seq<u8> {
    seq![(x >> 24u32) as u8, (x >> 16u32) as u8, (x >> 8u32) as u8, x as u8]
}

/// The eight bytes of `x` in big-endian order.
pub open spec fn be64(x: u64) -> Seq<u8> {
    be32((x >> 32u64) as u32) + be32(x as u32)
}

/// `n` zero bytes.
pub open spec fn zeros(n: nat) -> Seq<u8> {
    Seq::new(n, |i: int| 0u8)
}

/// A box: its 32-bit size (header included), its type, then its payload.
pub open spec fn mp4_box(tag: u32, payload: Seq<u8>) -> Seq<u8> {
    be32((payload.len() + 8) as u32) + be32(tag) + payload
}

/// The big-endian 32-bit integer that starts at byte `i` of `s`.
pub open spec fn read_be32(s: Seq<u8>, i: int) -> int {
    s[i] as int * 0x100_0000 + s[i + 1] as int * 0x1_0000 + s[i + 2] as int * 0x100 + s[i + 3] as int
}

/// The top-level boxes of `s`, as (type, size) pairs in order; `None` where a
/// header is cut short or declares a size below 8 or past the end of `s`.
pub open spec fn top_level_boxes(s: Seq<u8>) -> Option<Seq<(u32, nat)>>
    decreases s.len(),
{
    if s.len() == 0 {
        Some(Seq::empty())
    } else if s.len() < 8 {
        None
    } else {
        let size = read_be32(s, 0);
        if size < 8 || size > s.len() {
            None
        } else {
            match top_level_boxes(s.subrange(size, s.len() as int)) {
                Some(rest) => Some(seq![(read_be32(s, 4) as u32, size as nat)] + rest),
                None => None,
            }
        }
    }
}

/// Zero written big-endian is all zero bytes.
pub proof fn lemma_zero_bytes()
    ensures
        be32(0) == zeros(4),
        be16(0) == zeros(2),
{
    assert(((0u32 >> 24u32) as u8) == 0u8 && ((0u32 >> 16u32) as u8) == 0u8 && ((0u32 >> 8u32) as u8) == 0u8
        && (0u32 as u8) == 0u8) by (bit_vector);
    assert(((0u16 >> 8u16) as u8) == 0u8 && (0u16 as u8) == 0u8) by (bit_vector);
    assert(be32(0) =~= zeros(4));
    assert(be16(0) =~= zeros(2));
}

/// Reading back the bytes of `be32(x)` gives `x`.
pub proof fn lemma_read_be32(s: Seq<u8>, i: int, x: u32)
    requires
        0 <= i,
        i + 4 <= s.len(),
        s.subrange(i, i + 4) == be32(x),
    ensures
        read_be32(s, i) == x as int,
{
    assert(s[i] == be32(x)[0]);
    assert(s[i + 1] == be32(x)[1]);
    assert(s[i + 2] == be32(x)[2]);
    assert(s[i + 3] == be32(x)[3]);
    let y = x as u64;
    assert((((y >> 24u64) as u8) as u64) * 0x100_0000u64 + (((y >> 16u64) as u8) as u64) * 0x1_0000u64
        + (((y >> 8u64) as u8) as u64) * 0x100u64 + ((y as u8) as u64) == y) by (bit_vector)
        requires
            y <= 0xffff_ffffu64,
    ;
    assert(((x >> 24u32) as u8) == ((y >> 24u64) as u8) && ((x >> 16u32) as u8) == ((y >> 16u64) as u8)
        && ((x >> 8u32) as u8) == ((y >> 8u64) as u8) && (x as u8) == (y as u8)) by (bit_vector)
        requires
            y == x as u64,
    ;
}

/// A box whose payload is followed by `rest` parses as that box, then `rest`.
pub proof fn lemma_box_parse(tag: u32, payload: Seq<u8>, rest: Seq<u8>)
    requires
        payload.len() + 8 <= u32::MAX,
    ensures
        top_level_boxes(mp4_box(tag, payload) + rest) == (match top_level_boxes(rest) {
            Some(r) => Some(seq![(tag, (payload.len() + 8) as nat)] + r),
            None => None::<Seq<(u32, nat)>>,
        }),
{
    let s = mp4_box(tag, payload) + rest;
    let n = payload.len() + 8;
    lemma_read_be32(s, 0, n as u32);
    assert(s.subrange(0, 4) =~= be32(n as u32));
    assert(s.subrange(4, 8) =~= be32(tag));
    lemma_read_be32(s, 4, tag);
    assert(s.subrange(n as int, s.len() as int) =~= rest);
}

/// Appends `x` to `buf` in big-endian order.
pub fn put_u16(buf: &mut Vec<u8>, x: u16)
    ensures
        final(buf)@ == old(buf)@ + be16(x),
{
    buf.push((x >> 8u16) as u8);
    buf.push(x as u8);
    assert(buf@ =~= old(buf)@ + be16(x));
}

/// Appends `x` to `buf` in big-endian order.
pub fn put_u32(buf: &mut Vec<u8>, x: u32)
    ensures
        final(buf)@ == old(buf)@ + be32(x),
{
    buf.push((x >> 24u32) as u8);
    buf.push((x >> 16u32) as u8);
    buf.push((x >> 8u32) as u8);
    buf.push(x as u8);
    assert(buf@ =~= old(buf)@ + be32(x));
}

/// Appends `x` to `buf` in big-endian order.
pub fn put_u64(buf: &mut Vec<u8>, x: u64)
    ensures
        final(buf)@ == old(buf)@ + be64(x),
{
    put_u32(buf, (x >> 32u64) as u32);
    put_u32(buf, x as u32);
    assert(buf@ =~= old(buf)@ + be64(x));
}

/// Appends the bytes of `src` to `buf`.
pub fn put_bytes(buf: &mut Vec<u8>, src: &[u8])
    ensures
        final(buf)@ == old(buf)@ + src@,
{
    buf.extend_from_slice(src);
    assert(buf@ =~= old(buf)@ + src@);
}

/// Appends `n` zero bytes to `buf`.
pub fn put_zeros(buf: &mut Vec<u8>, n: usize)
    ensures
        final(buf)@ == old(buf)@ + zeros(n as nat),
{
    let mut k: usize = 0;
    while k < n
        invariant
            k <= n,
            buf@ == old(buf)@ + zeros(k as nat),
        decreases n - k,
    {
        buf.push(0u8);
        k = k + 1;
        assert(buf@ =~= old(buf)@ + zeros(k as nat));
    }
}

/// Builds the box of type `tag` around `payload`.
pub fn build_box(tag: u32, payload: &[u8]) -> (r: Vec<u8>)
    requires
        payload@.len() + 8 <= u32::MAX,
    ensures
        r@ == mp4_box(tag, payload@),
{
    let size = (8 + payload.len()) as u32;
    let mut buf: Vec<u8> = Vec::with_capacity(size as usize);
    put_u32(&mut buf, size);
    put_u32(&mut buf, tag);
    put_bytes(&mut buf, payload);
    buf
}

} // verus!
