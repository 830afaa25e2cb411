//! H.264 input helpers: the `avcC` decoder configuration record and
//! Annex-B to AVCC framing.
use vstd::prelude::*;
use vstd::string::*;
use crate::boxes::{be16, be32, put_bytes, put_u32};

verus! {

// ---------------------------------------------------------------------------
// avcC record
// ---------------------------------------------------------------------------

/// Why an `avcC` record was rejected.
#[derive(Clone, Copy, Debug, PartialEq, Eq, Structural)]
pub enum AvcCFault {
    TooShort,
    BadVersion(u8),
    NoSps,
    SpsLengthTruncated,
    SpsDataTruncated,
    ExtraSpsTruncated,
    PpsCountTruncated,
    NoPps,
    PpsLengthTruncated,
    PpsDataTruncated,
}

/// The big-endian 16-bit integer that starts at byte `i` of `b`.
pub open spec fn read_be16(b: Seq<u8>, i: int) -> int {
    b[i] as int * 256 + b[i + 1] as int
}

/// The offset reached after skipping `k` more `[u16 len][len bytes]` parameter
/// sets from `off`, or `None` where a length field is cut short.
pub open spec fn skip_parameter_sets(b: Seq<u8>, off: int, k: nat) -> Option<int>
    decreases k,
{
    if k == 0 {
        Some(off)
    } else if off + 2 > b.len() {
        None
    } else {
        skip_parameter_sets(b, off + 2 + read_be16(b, off), (k - 1) as nat)
    }
}

/// The first SPS and first PPS of an `avcC` record, or why it is malformed.
pub open spec fn parse_avc_config(b: Seq<u8>) -> Result<(Seq<u8>, Seq<u8>), AvcCFault> {
    if b.len() < 7 {
        Err(AvcCFault::TooShort)
    } else if b[0] != 1 {
        Err(AvcCFault::BadVersion(b[0]))
    } else if b[5] & 0x1fu8 == 0 {
        Err(AvcCFault::NoSps)
    } else if 8 > b.len() {
        Err(AvcCFault::SpsLengthTruncated)
    } else if 8 + read_be16(b, 6) > b.len() {
        Err(AvcCFault::SpsDataTruncated)
    } else {
        let sps_end = 8 + read_be16(b, 6);
        match skip_parameter_sets(b, sps_end, ((b[5] & 0x1fu8) - 1) as nat) {
            None => Err(AvcCFault::ExtraSpsTruncated),
            Some(o) => if o >= b.len() {
                Err(AvcCFault::PpsCountTruncated)
            } else if b[o] == 0 {
                Err(AvcCFault::NoPps)
            } else if o + 3 > b.len() {
                Err(AvcCFault::PpsLengthTruncated)
            } else if o + 3 + read_be16(b, o + 1) > b.len() {
                Err(AvcCFault::PpsDataTruncated)
            } else {
                Ok((b.subrange(8, sps_end), b.subrange(o + 3, o + 3 + read_be16(b, o + 1))))
            },
        }
    }
}

/// The character of decimal digit `d`.
pub open spec fn digit_char(d: nat) -> char {
    (48 + d) as char
}

/// The decimal digits of `v`, most significant first.
pub open spec fn decimal(v: nat) -> Seq<char>
    decreases v,
{
    if v < 10 {
        seq![digit_char(v)]
    } else {
        decimal(v / 10).push(digit_char(v % 10))
    }
}

/// The message reported for each fault.
pub open spec fn fault_text(f: AvcCFault) -> Seq<char> {
    match f {
        AvcCFault::TooShort => "avcC too short"@,
        AvcCFault::BadVersion(v) => "Invalid avcC version: "@ + decimal(v as nat),
        AvcCFault::NoSps => "No SPS found in avcC"@,
        AvcCFault::SpsLengthTruncated => "avcC truncated at SPS length"@,
        AvcCFault::SpsDataTruncated => "avcC truncated at SPS data"@,
        AvcCFault::ExtraSpsTruncated => "avcC truncated at additional SPS"@,
        AvcCFault::PpsCountTruncated => "avcC truncated at PPS count"@,
        AvcCFault::NoPps => "No PPS found in avcC"@,
        AvcCFault::PpsLengthTruncated => "avcC truncated at PPS length"@,
        AvcCFault::PpsDataTruncated => "avcC truncated at PPS data"@,
    }
}

/// The `avcC` record that carries `sps` and `pps`: version 1, profile,
/// compatibility and level from SPS bytes 1 to 3 (0x42, 0x00, 0x1e where the
/// SPS is shorter), 4-byte NAL lengths, one SPS, one PPS.
pub open spec fn avc_config_record(sps: Seq<u8>, pps: Seq<u8>) -> Seq<u8> {
    seq![
        1u8,
        if sps.len() > 1 { sps[1] } else { 0x42u8 },
        if sps.len() > 2 { sps[2] } else { 0x00u8 },
        if sps.len() > 3 { sps[3] } else { 0x1eu8 },
        0xffu8,
        0xe1u8,
    ] + be16(sps.len() as u16) + sps + seq![1u8] + be16(pps.len() as u16) + pps
}

/// The decimal text of a digit.
fn digit_str(d: u8) -> (r: &'static str)
    requires
        d < 10,
    ensures
        r@ == seq![digit_char(d as nat)],
{
    proof {
        reveal_strlit("0");
        reveal_strlit("1");
        reveal_strlit("2");
        reveal_strlit("3");
        reveal_strlit("4");
        reveal_strlit("5");
        reveal_strlit("6");
        reveal_strlit("7");
        reveal_strlit("8");
        reveal_strlit("9");
    }
    let r = if d == 0 {
        "0"
    } else if d == 1 {
        "1"
    } else if d == 2 {
        "2"
    } else if d == 3 {
        "3"
    } else if d == 4 {
        "4"
    } else if d == 5 {
        "5"
    } else if d == 6 {
        "6"
    } else if d == 7 {
        "7"
    } else if d == 8 {
        "8"
    } else {
        "9"
    };
    assert(r@ =~= seq![digit_char(d as nat)]);
    r
}

/// Appends the decimal digits of `v` to `s`.
fn append_decimal(s: &mut String, v: u8)
    ensures
        final(s)@ == old(s)@ + decimal(v as nat),
    decreases v,
{
    if v >= 10 {
        append_decimal(s, v / 10);
    }
    s.append(digit_str(v % 10));
    proof {
        if v >= 10 {
            assert(decimal(v as nat) == decimal((v / 10) as nat).push(digit_char((v % 10) as nat)));
        }
    }
    assert(s@ =~= old(s)@ + decimal(v as nat));
}

/// The message of `f`.
pub fn fault_message(f: AvcCFault) -> (r: String)
    ensures
        r@ == fault_text(f),
{
    match f {
        AvcCFault::TooShort => String::from_str("avcC too short"),
        AvcCFault::BadVersion(v) => {
            let mut s = String::from_str("Invalid avcC version: ");
            append_decimal(&mut s, v);
            s
        },
        AvcCFault::NoSps => String::from_str("No SPS found in avcC"),
        AvcCFault::SpsLengthTruncated => String::from_str("avcC truncated at SPS length"),
        AvcCFault::SpsDataTruncated => String::from_str("avcC truncated at SPS data"),
        AvcCFault::ExtraSpsTruncated => String::from_str("avcC truncated at additional SPS"),
        AvcCFault::PpsCountTruncated => String::from_str("avcC truncated at PPS count"),
        AvcCFault::NoPps => String::from_str("No PPS found in avcC"),
        AvcCFault::PpsLengthTruncated => String::from_str("avcC truncated at PPS length"),
        AvcCFault::PpsDataTruncated => String::from_str("avcC truncated at PPS data"),
    }
}

/// A copy of `src[lo..hi]`.
fn copy_range(src: &[u8], lo: usize, hi: usize) -> (r: Vec<u8>)
    requires
        lo <= hi <= src@.len(),
    ensures
        r@ == src@.subrange(lo as int, hi as int),
{
    let mut v: Vec<u8> = Vec::new();
    put_bytes(&mut v, &src[lo..hi]);
    assert(v@ =~= src@.subrange(lo as int, hi as int));
    v
}

/// Reads a big-endian 16-bit length at `off`.
fn get_be16(b: &[u8], off: usize) -> (r: usize)
    requires
        off + 2 <= b@.len(),
    ensures
        r as int == read_be16(b@, off as int),
        r <= 0xffff,
{
    (b[off] as usize) * 256 + (b[off + 1] as usize)
}

/// Parses an `avcC` record and returns its first SPS and first PPS.
pub fn parse_avc_config_record(avcc: &[u8]) -> (r: Result<(Vec<u8>, Vec<u8>), AvcCFault>)
    ensures
        match (r, parse_avc_config(avcc@)) {
            (Ok((s, p)), Ok((ss, pp))) => s@ == ss && p@ == pp,
            (Err(f), Err(ff)) => f == ff,
            _ => false,
        },
{
    let b = Ghost(avcc@);
    let n = avcc.len();
    if n < 7 {
        return Err(AvcCFault::TooShort);
    }
    if avcc[0] != 1 {
        return Err(AvcCFault::BadVersion(avcc[0]));
    }
    let num_sps = avcc[5] & 0x1f;
    if num_sps == 0 {
        return Err(AvcCFault::NoSps);
    }
    if n < 8 {
        return Err(AvcCFault::SpsLengthTruncated);
    }
    let sps_length = get_be16(avcc, 6);
    if sps_length > n - 8 {
        return Err(AvcCFault::SpsDataTruncated);
    }
    let sps = copy_range(avcc, 8, 8 + sps_length);
    let mut offset: usize = 8 + sps_length;
    let mut k: u8 = 1;
    while k < num_sps
        invariant
            b@ == avcc@,
            n == avcc@.len(),
            n >= 8,
            avcc@[0] == 1,
            8 + read_be16(b@, 6) <= n,
            1 <= k <= num_sps,
            num_sps == avcc@[5] & 0x1fu8,
            offset <= n,
            skip_parameter_sets(b@, 8 + read_be16(b@, 6), ((num_sps - 1) as nat))
                == skip_parameter_sets(b@, offset as int, (num_sps - k) as nat),
        decreases num_sps - k,
    {
        if n - offset < 2 {
            assert(skip_parameter_sets(b@, offset as int, (num_sps - k) as nat) is None);
            return Err(AvcCFault::ExtraSpsTruncated);
        }
        let len = get_be16(avcc, offset);
        if len > n - offset - 2 {
            // The next step lands past the end: whatever follows is cut short.
            proof {
                let o2 = offset + 2 + len;
                assert(skip_parameter_sets(b@, offset as int, (num_sps - k) as nat)
                    == skip_parameter_sets(b@, o2, (num_sps - k - 1) as nat));
                if num_sps - k - 1 > 0 {
                    assert(o2 + 2 > b@.len());
                    assert(skip_parameter_sets(b@, o2, (num_sps - k - 1) as nat) is None);
                } else {
                    assert(skip_parameter_sets(b@, o2, 0) == Some(o2 as int));
                }
            }
            if k + 1 < num_sps {
                return Err(AvcCFault::ExtraSpsTruncated);
            }
            return Err(AvcCFault::PpsCountTruncated);
        }
        offset = offset + 2 + len;
        k = k + 1;
    }
    if offset >= n {
        return Err(AvcCFault::PpsCountTruncated);
    }
    let num_pps = avcc[offset];
    if num_pps == 0 {
        return Err(AvcCFault::NoPps);
    }
    offset = offset + 1;
    if n - offset < 2 {
        return Err(AvcCFault::PpsLengthTruncated);
    }
    let pps_length = get_be16(avcc, offset);
    offset = offset + 2;
    if pps_length > n - offset {
        return Err(AvcCFault::PpsDataTruncated);
    }
    let pps = copy_range(avcc, offset, offset + pps_length);
    Ok((sps, pps))
}

/// Extracts the first SPS and first PPS from an `avcC` record (the codec
/// description handed out by an H.264 encoder).
pub fn extract_sps_pps_from_avcc(avcc: &[u8]) -> (r: Result<(Vec<u8>, Vec<u8>), String>)
    ensures
        match (r, parse_avc_config(avcc@)) {
            (Ok((s, p)), Ok((ss, pp))) => s@ == ss && p@ == pp,
            (Err(m), Err(f)) => m@ == fault_text(f),
            _ => false,
        },
{
    match parse_avc_config_record(avcc) {
        Ok(pair) => Ok(pair),
        Err(f) => Err(fault_message(f)),
    }
}

/// The bytes of a big-endian 16-bit value read back.
pub proof fn lemma_read_be16(b: Seq<u8>, i: int, x: u16)
    requires
        0 <= i,
        i + 2 <= b.len(),
        b.subrange(i, i + 2) == be16(x),
    ensures
        read_be16(b, i) == x as int,
{
    assert(b[i] == be16(x)[0]);
    assert(b[i + 1] == be16(x)[1]);
    let y = x as u32;
    assert((((y >> 8u32) as u8) as u32) * 256u32 + ((y as u8) as u32) == y) by (bit_vector)
        requires
            y <= 0xffffu32,
    ;
    assert(((x >> 8u16) as u8) == ((y >> 8u32) as u8) && (x as u8) == (y as u8)) by (bit_vector)
        requires
            y == x as u32,
    ;
}

/// Parsing the `avcC` record built from an SPS and a PPS gives them back.
pub proof fn lemma_avc_config_round_trip(sps: Seq<u8>, pps: Seq<u8>)
    requires
        0 < sps.len() <= 0xffff,
        0 < pps.len() <= 0xffff,
    ensures
        parse_avc_config(avc_config_record(sps, pps)) == Ok::<(Seq<u8>, Seq<u8>), AvcCFault>((sps, pps)),
{
    let b = avc_config_record(sps, pps);
    let sl = sps.len() as int;
    let pl = pps.len() as int;
    assert(b.len() == 6 + 2 + sl + 1 + 2 + pl);
    assert(0xe1u8 & 0x1fu8 == 1u8) by (bit_vector);
    assert(b[5] == 0xe1u8);
    assert(b.subrange(6, 8) =~= be16(sps.len() as u16));
    lemma_read_be16(b, 6, sps.len() as u16);
    assert(skip_parameter_sets(b, 8 + sl, 0) == Some(8 + sl));
    let o = 8 + sl;
    assert(b[o] == 1u8);
    assert(b.subrange(o + 1, o + 3) =~= be16(pps.len() as u16));
    lemma_read_be16(b, o + 1, pps.len() as u16);
    assert(b.subrange(8, 8 + sl) =~= sps);
    assert(b.subrange(o + 3, o + 3 + pl) =~= pps);
}

// ---------------------------------------------------------------------------
// Annex-B to AVCC
// ---------------------------------------------------------------------------

/// A four-byte start code `00 00 00 01` begins at `j`.
pub open spec fn start_code4_at(s: Seq<u8>, j: int) -> bool {
    0 <= j && j + 4 <= s.len() && s[j] == 0 && s[j + 1] == 0 && s[j + 2] == 0 && s[j + 3] == 1
}

/// A three-byte start code `00 00 01` begins at `j`.
pub open spec fn start_code3_at(s: Seq<u8>, j: int) -> bool {
    0 <= j && j + 3 <= s.len() && s[j] == 0 && s[j + 1] == 0 && s[j + 2] == 1
}

/// Some start code begins at `j`.
pub open spec fn start_code_at(s: Seq<u8>, j: int) -> bool {
    start_code4_at(s, j) || start_code3_at(s, j)
}

/// The first position at or after `j` where a start code begins, or the end.
pub open spec fn next_start_code(s: Seq<u8>, j: int) -> int
    decreases s.len() - j,
{
    if j >= s.len() {
        s.len() as int
    } else if start_code_at(s, j) {
        j
    } else {
        next_start_code(s, j + 1)
    }
}

/// `hi` moved down past the zero bytes that precede it, but not below `lo`.
pub open spec fn trim_zeros(s: Seq<u8>, lo: int, hi: int) -> int
    decreases hi - lo,
{
    if hi > lo && s[hi - 1] == 0 {
        trim_zeros(s, lo, hi - 1)
    } else {
        hi
    }
}

proof fn lemma_next_start_code_bounds(s: Seq<u8>, j: int)
    requires
        j <= s.len(),
    ensures
        j <= next_start_code(s, j) <= s.len(),
    decreases s.len() - j,
{
    if j < s.len() && !start_code_at(s, j) {
        lemma_next_start_code_bounds(s, j + 1);
    }
}

proof fn lemma_trim_zeros_bounds(s: Seq<u8>, lo: int, hi: int)
    requires
        lo <= hi,
    ensures
        lo <= trim_zeros(s, lo, hi) <= hi,
    decreases hi - lo,
{
    if hi > lo && s[hi - 1] == 0 {
        lemma_trim_zeros_bounds(s, lo, hi - 1);
    }
}

/// The AVCC bytes produced from the Annex-B bytes `s`, scanning from `i`: at a
/// start code (four bytes preferred over three), the NAL unit runs to the next
/// start code with its trailing zero bytes dropped, and is written as
/// `[u32 length][bytes]` unless empty; elsewhere the byte is skipped.
pub open spec fn annex_b_from(s: Seq<u8>, i: int) -> Seq<u8>
    decreases s.len() - i,
    via annex_b_from_decreases
{
    if i < 0 || i >= s.len() {
        Seq::empty()
    } else if start_code_at(s, i) {
        let st = if start_code4_at(s, i) { i + 4 } else { i + 3 };
        let e = trim_zeros(s, st, next_start_code(s, st));
        (if e > st { be32(#[verifier::truncate] ((e - st) as u32)) + s.subrange(st, e) } else { Seq::empty() })
            + annex_b_from(s, e)
    } else {
        annex_b_from(s, i + 1)
    }
}

#[via_fn]
proof fn annex_b_from_decreases(s: Seq<u8>, i: int) {
    if 0 <= i < s.len() && start_code_at(s, i) {
        let st = if start_code4_at(s, i) { i + 4 } else { i + 3 };
        lemma_next_start_code_bounds(s, st);
        lemma_trim_zeros_bounds(s, st, next_start_code(s, st));
    }
}

/// The AVCC form of the Annex-B bytes `s`.
pub open spec fn annex_b_to_avcc_spec(s: Seq<u8>) -> Seq<u8> {
    annex_b_from(s, 0)
}

/// Which start code begins at `i`: its length, or 0.
fn start_code_len(s: &[u8], i: usize) -> (r: usize)
    ensures
        r == (if start_code4_at(s@, i as int) { 4usize } else if start_code3_at(s@, i as int) { 3usize } else { 0usize }),
{
    let n = s.len();
    if i < n && n - i >= 4 && s[i] == 0 && s[i + 1] == 0 && s[i + 2] == 0 && s[i + 3] == 1 {
        4
    } else if i < n && n - i >= 3 && s[i] == 0 && s[i + 1] == 0 && s[i + 2] == 1 {
        3
    } else {
        0
    }
}

/// Converts Annex-B bytes (NAL units after `00 00 00 01` or `00 00 01` start
/// codes) to AVCC framing (each NAL unit after its 4-byte big-endian length).
pub fn annex_b_to_avcc(annex_b: &[u8]) -> (r: Vec<u8>)
    ensures
        r@ == annex_b_to_avcc_spec(annex_b@),
{
    let s = Ghost(annex_b@);
    let n = annex_b.len();
    let mut result: Vec<u8> = Vec::new();
    let mut i: usize = 0;
    while i < n
        invariant
            s@ == annex_b@,
            n == annex_b@.len(),
            i <= n,
            result@ + annex_b_from(s@, i as int) == annex_b_from(s@, 0),
        decreases n - i,
    {
        let k = start_code_len(annex_b, i);
        if k == 0 {
            i = i + 1;
            continue;
        }
        let nal_start = i + k;
        let mut j = nal_start;
        while j < n && start_code_len(annex_b, j) == 0
            invariant
                s@ == annex_b@,
                n == annex_b@.len(),
                nal_start <= j <= n,
                next_start_code(s@, nal_start as int) == next_start_code(s@, j as int),
            decreases n - j,
        {
            j = j + 1;
        }
        let mut nal_end = j;
        assert(nal_end == next_start_code(s@, nal_start as int));
        let ghost scan_end = nal_end as int;
        while nal_end > nal_start && annex_b[nal_end - 1] == 0
            invariant
                s@ == annex_b@,
                n == annex_b@.len(),
                nal_start <= nal_end <= n,
                trim_zeros(s@, nal_start as int, nal_end as int) == trim_zeros(s@, nal_start as int, scan_end),
            decreases nal_end,
        {
            nal_end = nal_end - 1;
        }
        let ghost prev = result@;
        if nal_end > nal_start {
            put_u32(&mut result, #[verifier::truncate] ((nal_end - nal_start) as u32));
            put_bytes(&mut result, &annex_b[nal_start..nal_end]);
        }
        assert(result@ =~= prev + (if nal_end > nal_start {
            be32(#[verifier::truncate] ((nal_end - nal_start) as u32)) + s@.subrange(nal_start as int, nal_end as int)
        } else {
            Seq::empty()
        }));
        i = nal_end;
    }
    assert(result@ =~= result@ + annex_b_from(s@, i as int));
    result
}

// ---------------------------------------------------------------------------
// Round trip on canonical NAL units
// ---------------------------------------------------------------------------

/// A NAL unit that survives Annex-B framing unchanged: non-empty, short enough
/// for a 32-bit length, ending in a non-zero byte (as every RBSP trailing bit
/// does), and holding no `00 00 01` start-code emulation.
pub open spec fn canonical_nal(nal: Seq<u8>) -> bool {
    &&& 0 < nal.len() <= u32::MAX
    &&& nal[nal.len() - 1] != 0
    &&& forall|j: int| 0 <= j && j + 3 <= nal.len() ==> !(#[trigger] start_code3_at(nal, j))
}

/// NAL units framed with 4-byte big-endian lengths.
pub open spec fn avcc_of(nals: Seq<Seq<u8>>) -> Seq<u8>
    decreases nals.len(),
{
    if nals.len() == 0 {
        Seq::empty()
    } else {
        be32(nals[0].len() as u32) + nals[0] + avcc_of(nals.drop_first())
    }
}

/// NAL units framed with four-byte start codes.
pub open spec fn annex_b_of(nals: Seq<Seq<u8>>) -> Seq<u8>
    decreases nals.len(),
{
    if nals.len() == 0 {
        Seq::empty()
    } else {
        seq![0u8, 0u8, 0u8, 1u8] + nals[0] + annex_b_of(nals.drop_first())
    }
}

proof fn lemma_start_code_shift(p: Seq<u8>, r: Seq<u8>, j: int)
    requires
        0 <= j,
    ensures
        start_code4_at(p + r, p.len() + j) == start_code4_at(r, j),
        start_code3_at(p + r, p.len() + j) == start_code3_at(r, j),
{
    let s = p + r;
    let q = p.len() as int;
    if j + 4 <= r.len() {
        assert(s[q + j] == r[j] && s[q + j + 1] == r[j + 1] && s[q + j + 2] == r[j + 2] && s[q + j + 3] == r[j + 3]);
    } else if j + 3 <= r.len() {
        assert(s[q + j] == r[j] && s[q + j + 1] == r[j + 1] && s[q + j + 2] == r[j + 2]);
    }
}

proof fn lemma_next_start_code_shift(p: Seq<u8>, r: Seq<u8>, j: int)
    requires
        0 <= j,
    ensures
        next_start_code(p + r, p.len() + j) == p.len() + next_start_code(r, j),
    decreases r.len() - j,
{
    lemma_start_code_shift(p, r, j);
    if j < r.len() && !start_code_at(r, j) {
        lemma_next_start_code_shift(p, r, j + 1);
    }
}

proof fn lemma_trim_zeros_shift(p: Seq<u8>, r: Seq<u8>, lo: int, hi: int)
    requires
        0 <= lo <= hi <= r.len(),
    ensures
        trim_zeros(p + r, p.len() + lo, p.len() + hi) == p.len() + trim_zeros(r, lo, hi),
    decreases hi - lo,
{
    if hi > lo {
        assert((p + r)[p.len() + hi - 1] == r[hi - 1]);
        if r[hi - 1] == 0 {
            lemma_trim_zeros_shift(p, r, lo, hi - 1);
        }
    }
}

proof fn lemma_annex_b_from_shift(p: Seq<u8>, r: Seq<u8>, i: int)
    requires
        0 <= i,
    ensures
        annex_b_from(p + r, p.len() + i) == annex_b_from(r, i),
    decreases r.len() - i,
{
    let s = p + r;
    let q = p.len() as int;
    if i < r.len() {
        lemma_start_code_shift(p, r, i);
        if start_code_at(r, i) {
            let st = if start_code4_at(r, i) { i + 4 } else { i + 3 };
            lemma_next_start_code_shift(p, r, st);
            lemma_next_start_code_bounds(r, st);
            let ns = next_start_code(r, st);
            lemma_trim_zeros_shift(p, r, st, ns);
            lemma_trim_zeros_bounds(r, st, ns);
            let e = trim_zeros(r, st, ns);
            assert(s.subrange(q + st, q + e) =~= r.subrange(st, e));
            lemma_annex_b_from_shift(p, r, e);
        } else {
            lemma_annex_b_from_shift(p, r, i + 1);
        }
    }
}

proof fn lemma_next_start_code_is(s: Seq<u8>, j: int, k: int)
    requires
        0 <= j <= k <= s.len(),
        forall|m: int| j <= m < k ==> !#[trigger] start_code_at(s, m),
        k == s.len() || start_code_at(s, k),
    ensures
        next_start_code(s, j) == k,
    decreases k - j,
{
    if j < k {
        lemma_next_start_code_is(s, j + 1, k);
    }
}

/// Framing canonical NAL units with start codes and converting back gives
/// their AVCC framing.
pub proof fn lemma_annex_b_round_trip(nals: Seq<Seq<u8>>)
    requires
        forall|k: int| 0 <= k < nals.len() ==> canonical_nal(#[trigger] nals[k]),
    ensures
        annex_b_to_avcc_spec(annex_b_of(nals)) == avcc_of(nals),
    decreases nals.len(),
{
    if nals.len() > 0 {
        let nal = nals[0];
        let tail = nals.drop_first();
        assert forall|k: int| 0 <= k < tail.len() implies canonical_nal(#[trigger] tail[k]) by {
            assert(tail[k] == nals[k + 1]);
        }
        lemma_annex_b_round_trip(tail);
        let rest = annex_b_of(tail);
        let head = seq![0u8, 0u8, 0u8, 1u8] + nal;
        let s = annex_b_of(nals);
        assert(s == head + rest);
        let m = nal.len() as int;
        let end = 4 + m;
        assert(canonical_nal(nals[0]));
        assert(start_code4_at(s, 0));
        assert(rest.len() > 0 ==> start_code4_at(rest, 0)) by {
            if rest.len() > 0 {
                assert(tail.len() > 0);
                assert(rest[0] == 0 && rest[1] == 0 && rest[2] == 0 && rest[3] == 1);
            }
        }
        lemma_start_code_shift(head, rest, 0);
        assert forall|j: int| 4 <= j < end implies !#[trigger] start_code_at(s, j) by {
            assert(s[j] == nal[j - 4]);
            if j + 1 < end {
                assert(s[j + 1] == nal[j - 3]);
            }
            if j + 2 < end {
                assert(s[j + 2] == nal[j - 2]);
            }
            if j + 3 < end {
                assert(s[j + 3] == nal[j - 1]);
            }
            assert(s[end - 1] == nal[m - 1]);
            if start_code3_at(s, j) && j + 3 <= end {
                assert(start_code3_at(nal, j - 4));
            }
            if start_code4_at(s, j) && j + 4 <= end {
                assert(start_code3_at(nal, j - 3));
            }
        }
        lemma_next_start_code_is(s, 4, end);
        assert(s[end - 1] == nal[m - 1]);
        assert(trim_zeros(s, 4, end) == end);
        assert(s.subrange(4, end) =~= nal);
        lemma_annex_b_from_shift(head, rest, 0);
        assert(annex_b_from(s, 0) == be32(m as u32) + nal + annex_b_from(s, end));
        assert(avcc_of(nals) == be32(m as u32) + nal + avcc_of(tail));
    } else {
        assert(annex_b_of(nals) =~= Seq::<u8>::empty());
    }
}

} // verus!
