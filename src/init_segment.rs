//! The initialization segment: `ftyp` followed by `moov`.
use vstd::prelude::*;
use vstd::string::*;
use crate::boxes::{
    be16, be32, build_box, mp4_box, put_bytes, put_u16, put_u32, put_zeros, zeros, AVC1, AVCC, DINF,
    DREF, ESDS, FTYP, HDLR, MDHD, MDIA, MINF, MOOV, MP4A, MVEX, MVHD, SMHD, STBL, STCO, STSC, STSD,
    STSZ, STTS, TKHD, TRAK, TREX, URL, VMHD,
};
use crate::config::MuxideConfig;
use crate::nal::avc_config_record;

verus! {

/// Brand `iso5`.
pub const ISO5: u32 = 0x6973_6f35;
/// Brand `iso6`.
pub const ISO6: u32 = 0x6973_6f36;
/// Brand `mp41`.
pub const MP41: u32 = 0x6d70_3431;
/// Handler type `vide`.
pub const VIDE: u32 = 0x7669_6465;
/// Handler type `soun`.
pub const SOUN: u32 = 0x736f_756e;

// ---------------------------------------------------------------------------
// Layout
// ---------------------------------------------------------------------------

/// `ftyp`: major brand `iso5`, minor version 0, brands `iso5 iso6 mp41`.
pub open spec fn ftyp_box() -> Seq<u8> {
    mp4_box(FTYP, be32(ISO5) + be32(0) + be32(ISO5) + be32(ISO6) + be32(MP41))
}

/// The identity transformation matrix.
pub open spec fn unity_matrix() -> Seq<u8> {
    be32(0x0001_0000) + zeros(12) + be32(0x0001_0000) + zeros(12) + be32(0x4000_0000)
}

/// `mvhd`: timescale, zero duration, rate 1.0, volume 1.0, identity matrix.
pub open spec fn mvhd_box(timescale: u32, next_track_id: u32) -> Seq<u8> {
    mp4_box(
        MVHD,
        be32(0) + be32(0) + be32(0) + be32(timescale) + be32(0) + be32(0x0001_0000) + be16(0x0100)
            + zeros(10) + unity_matrix() + zeros(24) + be32(next_track_id),
    )
}

/// `trex`: sample description 1, all other defaults 0.
pub open spec fn trex_box(track_id: u32) -> Seq<u8> {
    mp4_box(TREX, be32(0) + be32(track_id) + be32(1) + be32(0) + be32(0) + be32(0))
}

/// `mvex`: one `trex` per track.
pub open spec fn mvex_box(has_audio: bool) -> Seq<u8> {
    mp4_box(MVEX, trex_box(1) + if has_audio { trex_box(2) } else { Seq::empty() })
}

/// `tkhd`: enabled and in movie; width and height already in 16.16.
pub open spec fn tkhd_box(track_id: u32, volume: u16, width: u32, height: u32) -> Seq<u8> {
    mp4_box(
        TKHD,
        be32(3) + be32(0) + be32(0) + be32(track_id) + be32(0) + be32(0) + zeros(8) + be16(0)
            + be16(0) + be16(volume) + be16(0) + unity_matrix() + be32(width) + be32(height),
    )
}

/// The 5-bit code of a language letter: its distance above 0x60, or 0.
pub open spec fn letter_code(c: char) -> u16 {
    let v = (c as u32) as u16;
    (if v >= 0x60 { (v - 0x60) as u16 } else { 0u16 }) & 0x1fu16
}

/// The first three characters of `s`, 'u', 'n', 'd' standing in for missing ones.
pub open spec fn language_letter(s: Seq<char>, i: int, default: char) -> char {
    if i < s.len() { s[i] } else { default }
}

/// An ISO 639-2/T code packed in three 5-bit letters, big-endian.
pub open spec fn language_code(s: Seq<char>) -> Seq<u8> {
    be16(
        (letter_code(language_letter(s, 0, 'u')) << 10u16) | (letter_code(language_letter(s, 1, 'n')) << 5u16)
            | letter_code(language_letter(s, 2, 'd')),
    )
}

/// The packed code of `und`.
pub open spec fn und_code() -> Seq<u8> {
    seq![0x55u8, 0xc4u8]
}

/// `mdhd`: timescale, zero duration, language `und`.
pub open spec fn mdhd_box(timescale: u32) -> Seq<u8> {
    mp4_box(MDHD, be32(0) + be32(0) + be32(0) + be32(timescale) + be32(0) + und_code() + be16(0))
}

/// `hdlr` with a handler type and a name.
pub open spec fn hdlr_box(handler_type: u32, name: Seq<u8>) -> Seq<u8> {
    mp4_box(HDLR, be32(0) + be32(0) + be32(handler_type) + zeros(12) + name)
}

/// `VideoHandler` with its terminating zero.
pub open spec fn video_handler_name() -> Seq<u8> {
    seq![0x56u8, 0x69, 0x64, 0x65, 0x6f, 0x48, 0x61, 0x6e, 0x64, 0x6c, 0x65, 0x72, 0x00]
}

/// `SoundHandler` with its terminating zero.
pub open spec fn sound_handler_name() -> Seq<u8> {
    seq![0x53u8, 0x6f, 0x75, 0x6e, 0x64, 0x48, 0x61, 0x6e, 0x64, 0x6c, 0x65, 0x72, 0x00]
}

/// `vmhd` with flags 1.
pub open spec fn vmhd_box() -> Seq<u8> {
    mp4_box(VMHD, be32(1) + zeros(8))
}

/// `smhd`: balance 0.
pub open spec fn smhd_box() -> Seq<u8> {
    mp4_box(SMHD, be32(0) + be16(0) + be16(0))
}

/// `dinf` holding a `dref` with one self-contained `url ` entry.
pub open spec fn dinf_box() -> Seq<u8> {
    mp4_box(DINF, mp4_box(DREF, be32(0) + be32(1) + mp4_box(URL, seq![0u8, 0, 0, 1])))
}

/// A sample table with no entries.
pub open spec fn empty_table_box(tag: u32) -> Seq<u8> {
    mp4_box(tag, be32(0) + be32(0))
}

/// `stsz` with no samples.
pub open spec fn empty_stsz_box() -> Seq<u8> {
    mp4_box(STSZ, be32(0) + be32(0) + be32(0))
}

/// `stbl`: the sample description, then four empty tables.
pub open spec fn stbl_box(stsd: Seq<u8>) -> Seq<u8> {
    mp4_box(STBL, stsd + empty_table_box(STTS) + empty_table_box(STSC) + empty_stsz_box() + empty_table_box(STCO))
}

/// `stsd` with one sample entry.
pub open spec fn stsd_box(entry: Seq<u8>) -> Seq<u8> {
    mp4_box(STSD, be32(0) + be32(1) + entry)
}

/// `avc1` sample entry with its `avcC`.
pub open spec fn avc1_box(width: u32, height: u32, sps: Seq<u8>, pps: Seq<u8>) -> Seq<u8> {
    mp4_box(
        AVC1,
        zeros(6) + be16(1) + be16(0) + be16(0) + zeros(12) + be16(width as u16) + be16(height as u16)
            + be32(0x0048_0000) + be32(0x0048_0000) + be32(0) + be16(1) + zeros(32) + be16(0x0018)
            + be16(0xffff) + mp4_box(AVCC, avc_config_record(sps, pps)),
    )
}

/// The length field of an ISO 14496-1 descriptor: one byte below 128, else
/// four bytes of 7 bits each, the first three with the high bit set.
pub open spec fn descriptor_length(len: nat) -> Seq<u8> {
    if len < 128 {
        seq![len as u8]
    } else {
        seq![
            (0x80 + (len / 0x20_0000) % 0x80) as u8,
            (0x80 + (len / 0x4000) % 0x80) as u8,
            (0x80 + (len / 0x80) % 0x80) as u8,
            (len % 0x80) as u8,
        ]
    }
}

/// An ISO 14496-1 descriptor: tag, length, data.
pub open spec fn descriptor(tag: u8, data: Seq<u8>) -> Seq<u8> {
    seq![tag] + descriptor_length(data.len()) + data
}

/// The ISO sampling-frequency index of a rate; unknown rates map to 3.
pub open spec fn sampling_frequency_index(rate: u32) -> u8 {
    if rate == 96000 { 0 }
    else if rate == 88200 { 1 }
    else if rate == 64000 { 2 }
    else if rate == 48000 { 3 }
    else if rate == 44100 { 4 }
    else if rate == 32000 { 5 }
    else if rate == 24000 { 6 }
    else if rate == 22050 { 7 }
    else if rate == 16000 { 8 }
    else if rate == 12000 { 9 }
    else if rate == 11025 { 10 }
    else if rate == 8000 { 11 }
    else if rate == 7350 { 12 }
    else { 3 }
}

/// The channel configuration: the channel count, at most 7.
pub open spec fn channel_configuration(channels: u16) -> u8 {
    if channels < 7 { channels as u8 } else { 7 }
}

/// AAC-LC AudioSpecificConfig: object type 2 (5 bits), frequency index (4
/// bits), channel configuration (4 bits), three zero bits.
pub open spec fn audio_specific_config(rate: u32, channels: u16) -> Seq<u8> {
    let idx = sampling_frequency_index(rate);
    seq![(2 * 8 + idx / 2) as u8, ((idx % 2) * 128 + channel_configuration(channels) * 8) as u8]
}

/// The (object type, frequency index, channel configuration) fields of a
/// two-byte AudioSpecificConfig.
pub open spec fn decode_audio_specific_config(b: Seq<u8>) -> (u8, u8, u8) {
    ((b[0] / 8) as u8, ((b[0] % 8) * 2 + b[1] / 128) as u8, ((b[1] / 8) % 16) as u8)
}

/// The AudioSpecificConfig carried by `c`: the given one, else synthesised.
pub open spec fn config_asc(c: MuxideConfig) -> Seq<u8> {
    match c.audio_specific_config {
        Some(a) => a@,
        None => audio_specific_config(c.sample_rate(), c.channels()),
    }
}

/// `esds`: ES descriptor holding an AAC decoder configuration (128 kbit/s)
/// with the AudioSpecificConfig, then the MP4 SL configuration.
pub open spec fn esds_box(asc: Seq<u8>) -> Seq<u8> {
    let decoder_config = seq![0x40u8, 0x15u8, 0u8, 0u8, 0u8] + be32(128000) + be32(128000) + descriptor(5, asc);
    let es = be16(0) + seq![0u8] + descriptor(4, decoder_config) + descriptor(6, seq![2u8]);
    mp4_box(ESDS, be32(0) + descriptor(3, es))
}

/// `mp4a` sample entry: channels, 16-bit samples, rate in 16.16, `esds`.
pub open spec fn mp4a_box(channels: u16, rate: u32, asc: Seq<u8>) -> Seq<u8> {
    mp4_box(
        MP4A,
        zeros(6) + be16(1) + be16(0) + be16(0) + be32(0) + be16(channels) + be16(16) + be16(0) + be16(0)
            + be32(rate << 16u32) + esds_box(asc),
    )
}

/// The video sample table.
pub open spec fn video_stbl_box(c: MuxideConfig) -> Seq<u8> {
    stbl_box(stsd_box(avc1_box(c.video_width, c.video_height, c.sps@, c.pps@)))
}

/// The video media information.
pub open spec fn video_minf_box(c: MuxideConfig) -> Seq<u8> {
    mp4_box(MINF, vmhd_box() + dinf_box() + video_stbl_box(c))
}

/// The video media box.
pub open spec fn video_mdia_box(c: MuxideConfig) -> Seq<u8> {
    mp4_box(MDIA, mdhd_box(c.video_timescale) + hdlr_box(VIDE, video_handler_name()) + video_minf_box(c))
}

/// The video `trak` (track 1).
#[verifier::opaque]
pub open spec fn video_trak_box(c: MuxideConfig) -> Seq<u8> {
    mp4_box(TRAK, tkhd_box(1, 0, c.video_width << 16u32, c.video_height << 16u32) + video_mdia_box(c))
}

/// The audio sample table.
pub open spec fn audio_stbl_box(c: MuxideConfig) -> Seq<u8> {
    stbl_box(stsd_box(mp4a_box(c.channels(), c.sample_rate(), config_asc(c))))
}

/// The audio media information.
pub open spec fn audio_minf_box(c: MuxideConfig) -> Seq<u8> {
    mp4_box(MINF, smhd_box() + dinf_box() + audio_stbl_box(c))
}

/// The audio media box.
pub open spec fn audio_mdia_box(c: MuxideConfig) -> Seq<u8> {
    mp4_box(MDIA, mdhd_box(c.audio_ticks_per_second()) + hdlr_box(SOUN, sound_handler_name()) + audio_minf_box(c))
}

/// The audio `trak` (track 2).
#[verifier::opaque]
pub open spec fn audio_trak_box(c: MuxideConfig) -> Seq<u8> {
    mp4_box(TRAK, tkhd_box(2, 0x0100, 0, 0) + audio_mdia_box(c))
}

/// `moov`: `mvhd`, `mvex`, the video track, then the audio track if configured.
pub open spec fn moov_box(c: MuxideConfig) -> Seq<u8> {
    let a = c.audio_configured();
    mp4_box(
        MOOV,
        mvhd_box(c.video_timescale, if a { 3 } else { 2 }) + mvex_box(a) + video_trak_box(c)
            + if a { audio_trak_box(c) } else { Seq::empty() },
    )
}

/// The initialization segment of `c`.
pub open spec fn init_segment(c: MuxideConfig) -> Seq<u8> {
    ftyp_box() + moov_box(c)
}

// ---------------------------------------------------------------------------
// Builders
// ---------------------------------------------------------------------------

/// Builds the initialization segment (`ftyp` + `moov`).
pub fn build_init_segment(config: &MuxideConfig) -> (r: Vec<u8>)
    requires
        config.fits(),
    ensures
        r@ == init_segment(*config),
{
    let mut buf: Vec<u8> = Vec::new();
    let ftyp = build_ftyp();
    put_bytes(&mut buf, &ftyp);
    let moov = build_moov(config);
    put_bytes(&mut buf, &moov);
    assert(buf@ =~= init_segment(*config));
    buf
}

/// Builds `ftyp`.
pub fn build_ftyp() -> (r: Vec<u8>)
    ensures
        r@.len() <= 0x100,
        r@ == ftyp_box(),
{
    let mut payload: Vec<u8> = Vec::new();
    put_u32(&mut payload, ISO5);
    put_u32(&mut payload, 0);
    put_u32(&mut payload, ISO5);
    put_u32(&mut payload, ISO6);
    put_u32(&mut payload, MP41);
    build_box(FTYP, &payload)
}

/// Builds `moov`.
#[verifier::rlimit(50)]
pub fn build_moov(config: &MuxideConfig) -> (r: Vec<u8>)
    requires
        config.fits(),
    ensures
        r@.len() <= 0x4_0000,
        r@ == moov_box(*config),
{
    let mut payload: Vec<u8> = Vec::new();
    let has_audio = config.has_audio();
    let next_track_id: u32 = if has_audio { 3 } else { 2 };
    let mvhd = build_mvhd(config.video_timescale, next_track_id);
    put_bytes(&mut payload, &mvhd);
    let mvex = build_mvex(has_audio);
    put_bytes(&mut payload, &mvex);
    let video_trak = build_video_trak(config);
    put_bytes(&mut payload, &video_trak);
    let ghost base = mvhd@ + mvex@ + video_trak@;
    assert(payload@ =~= base);
    if has_audio {
        let audio_trak = build_audio_trak(config);
        put_bytes(&mut payload, &audio_trak);
        assert(payload@ =~= base + audio_trak@);
    }
    build_box(MOOV, &payload)
}

/// Appends the identity matrix.
fn put_unity_matrix(buf: &mut Vec<u8>)
    ensures
        final(buf)@ == old(buf)@ + unity_matrix(),
{
    put_u32(buf, 0x0001_0000);
    put_zeros(buf, 12);
    put_u32(buf, 0x0001_0000);
    put_zeros(buf, 12);
    put_u32(buf, 0x4000_0000);
    assert(buf@ =~= old(buf)@ + unity_matrix());
}

/// Builds `mvhd`.
pub fn build_mvhd(timescale: u32, next_track_id: u32) -> (r: Vec<u8>)
    ensures
        r@.len() <= 0x100,
        r@ == mvhd_box(timescale, next_track_id),
{
    let mut payload: Vec<u8> = Vec::new();
    put_u32(&mut payload, 0);
    put_u32(&mut payload, 0);
    put_u32(&mut payload, 0);
    put_u32(&mut payload, timescale);
    put_u32(&mut payload, 0);
    put_u32(&mut payload, 0x0001_0000);
    put_u16(&mut payload, 0x0100);
    put_zeros(&mut payload, 10);
    put_unity_matrix(&mut payload);
    put_zeros(&mut payload, 24);
    put_u32(&mut payload, next_track_id);
    build_box(MVHD, &payload)
}

/// Builds `mvex`.
pub fn build_mvex(has_audio: bool) -> (r: Vec<u8>)
    ensures
        r@.len() <= 0x100,
        r@ == mvex_box(has_audio),
{
    let mut payload: Vec<u8> = Vec::new();
    let video_trex = build_trex(1);
    put_bytes(&mut payload, &video_trex);
    if has_audio {
        let audio_trex = build_trex(2);
        put_bytes(&mut payload, &audio_trex);
    }
    build_box(MVEX, &payload)
}

/// Builds `trex`.
pub fn build_trex(track_id: u32) -> (r: Vec<u8>)
    ensures
        r@.len() <= 0x100,
        r@ == trex_box(track_id),
{
    let mut payload: Vec<u8> = Vec::new();
    put_u32(&mut payload, 0);
    put_u32(&mut payload, track_id);
    put_u32(&mut payload, 1);
    put_u32(&mut payload, 0);
    put_u32(&mut payload, 0);
    put_u32(&mut payload, 0);
    build_box(TREX, &payload)
}

/// Builds a `tkhd`.
fn build_tkhd(track_id: u32, volume: u16, width: u32, height: u32) -> (r: Vec<u8>)
    ensures
        r@.len() <= 0x100,
        r@ == tkhd_box(track_id, volume, width, height),
{
    let mut payload: Vec<u8> = Vec::new();
    put_u32(&mut payload, 3);
    put_u32(&mut payload, 0);
    put_u32(&mut payload, 0);
    put_u32(&mut payload, track_id);
    put_u32(&mut payload, 0);
    put_u32(&mut payload, 0);
    put_zeros(&mut payload, 8);
    put_u16(&mut payload, 0);
    put_u16(&mut payload, 0);
    put_u16(&mut payload, volume);
    put_u16(&mut payload, 0);
    put_unity_matrix(&mut payload);
    put_u32(&mut payload, width);
    put_u32(&mut payload, height);
    build_box(TKHD, &payload)
}

/// Builds the video `trak`.
#[verifier::rlimit(50)]
pub fn build_video_trak(config: &MuxideConfig) -> (r: Vec<u8>)
    requires
        config.fits(),
    ensures
        r@.len() <= 0x2_0700,
        r@ == video_trak_box(*config),
{
    let mut payload: Vec<u8> = Vec::new();
    let tkhd = build_video_tkhd(config);
    put_bytes(&mut payload, &tkhd);
    let mdia = build_video_mdia(config);
    put_bytes(&mut payload, &mdia);
    assert(payload@ =~= tkhd@ + mdia@);
    proof {
        reveal(video_trak_box);
        reveal(audio_trak_box);
    }
    build_box(TRAK, &payload)
}

/// Builds the video `tkhd`: track 1, volume 0, size in 16.16.
pub fn build_video_tkhd(config: &MuxideConfig) -> (r: Vec<u8>)
    ensures
        r@.len() <= 0x100,
        r@ == tkhd_box(1, 0, config.video_width << 16u32, config.video_height << 16u32),
{
    build_tkhd(1, 0, config.video_width << 16u32, config.video_height << 16u32)
}

/// Builds the video `mdia`.
pub fn build_video_mdia(config: &MuxideConfig) -> (r: Vec<u8>)
    requires
        config.fits(),
    ensures
        r@.len() <= 0x2_0600,
        r@ == video_mdia_box(*config),
{
    let mut payload: Vec<u8> = Vec::new();
    let mdhd = build_mdhd(config.video_timescale);
    put_bytes(&mut payload, &mdhd);
    let name: Vec<u8> = vec![0x56u8, 0x69, 0x64, 0x65, 0x6f, 0x48, 0x61, 0x6e, 0x64, 0x6c, 0x65, 0x72, 0x00];
    assert(name@ =~= video_handler_name());
    let hdlr = build_hdlr(VIDE, &name);
    put_bytes(&mut payload, &hdlr);
    let minf = build_video_minf(config);
    put_bytes(&mut payload, &minf);
    build_box(MDIA, &payload)
}

/// Builds `mdhd` with language `und`.
pub fn build_mdhd(timescale: u32) -> (r: Vec<u8>)
    ensures
        r@.len() <= 0x100,
        r@ == mdhd_box(timescale),
{
    let mut payload: Vec<u8> = Vec::new();
    put_u32(&mut payload, 0);
    put_u32(&mut payload, 0);
    put_u32(&mut payload, 0);
    put_u32(&mut payload, timescale);
    put_u32(&mut payload, 0);
    let lang = encode_language_code("und");
    proof {
        reveal_strlit("und");
        lemma_und_code();
    }
    put_bytes(&mut payload, &lang);
    put_u16(&mut payload, 0);
    assert(payload@ =~= be32(0) + be32(0) + be32(0) + be32(timescale) + be32(0) + und_code() + be16(0));
    build_box(MDHD, &payload)
}

/// `und` packs to 0x55c4.
proof fn lemma_und_code()
    ensures
        language_code(seq!['u', 'n', 'd']) == und_code(),
{
    let s = seq!['u', 'n', 'd'];
    assert(language_letter(s, 0, 'u') == 'u');
    assert(language_letter(s, 1, 'n') == 'n');
    assert(language_letter(s, 2, 'd') == 'd');
    assert(('u' as u32) as u16 == 0x75u16 && ('n' as u32) as u16 == 0x6eu16 && ('d' as u32) as u16 == 0x64u16);
    assert((0x15u16 & 0x1fu16) == 0x15u16 && (0x0eu16 & 0x1fu16) == 0x0eu16 && (0x04u16 & 0x1fu16) == 0x04u16)
        by (bit_vector);
    assert(letter_code('u') == 0x15u16);
    assert(letter_code('n') == 0x0eu16);
    assert(letter_code('d') == 0x04u16);
    assert(((0x15u16 << 10u16) | (0x0eu16 << 5u16) | 0x04u16) == 0x55c4u16) by (bit_vector);
    assert(((0x55c4u16 >> 8u16) as u8) == 0x55u8 && (0x55c4u16 as u8) == 0xc4u8) by (bit_vector);
    assert(language_code(s) =~= und_code());
}

/// The 5-bit code of one language letter.
fn encode_letter(c: char) -> (r: u16)
    ensures
        r == letter_code(c),
{
    let v = (c as u32) as u16;
    v.saturating_sub(0x60) & 0x1f
}

/// Packs an ISO 639-2/T language code (three lower-case letters) into two bytes.
pub fn encode_language_code(language: &str) -> (r: [u8; 2])
    ensures
        r@ == language_code(language@),
{
    let n = language.unicode_len();
    let c1 = if n > 0 { language.get_char(0) } else { 'u' };
    let c2 = if n > 1 { language.get_char(1) } else { 'n' };
    let c3 = if n > 2 { language.get_char(2) } else { 'd' };
    let packed: u16 = (encode_letter(c1) << 10u16) | (encode_letter(c2) << 5u16) | encode_letter(c3);
    let r = [(packed >> 8u16) as u8, packed as u8];
    assert(r@ =~= language_code(language@));
    r
}

/// Builds `hdlr`.
pub fn build_hdlr(handler_type: u32, name: &[u8]) -> (r: Vec<u8>)
    requires
        name@.len() <= 0xffff,
    ensures
        r@ == hdlr_box(handler_type, name@),
{
    let mut payload: Vec<u8> = Vec::new();
    put_u32(&mut payload, 0);
    put_u32(&mut payload, 0);
    put_u32(&mut payload, handler_type);
    put_zeros(&mut payload, 12);
    put_bytes(&mut payload, name);
    build_box(HDLR, &payload)
}

/// Builds the video `minf`.
pub fn build_video_minf(config: &MuxideConfig) -> (r: Vec<u8>)
    requires
        config.fits(),
    ensures
        r@.len() <= 0x2_0500,
        r@ == video_minf_box(*config),
{
    let mut payload: Vec<u8> = Vec::new();
    let vmhd = build_vmhd();
    put_bytes(&mut payload, &vmhd);
    let dinf = build_dinf();
    put_bytes(&mut payload, &dinf);
    let stbl = build_video_stbl(config);
    put_bytes(&mut payload, &stbl);
    build_box(MINF, &payload)
}

/// Builds `vmhd`.
pub fn build_vmhd() -> (r: Vec<u8>)
    ensures
        r@.len() <= 0x100,
        r@ == vmhd_box(),
{
    let mut payload: Vec<u8> = Vec::new();
    put_u32(&mut payload, 1);
    put_zeros(&mut payload, 8);
    build_box(VMHD, &payload)
}

/// Builds `dinf`.
pub fn build_dinf() -> (r: Vec<u8>)
    ensures
        r@.len() <= 0x100,
        r@ == dinf_box(),
{
    let mut dref_payload: Vec<u8> = Vec::new();
    put_u32(&mut dref_payload, 0);
    put_u32(&mut dref_payload, 1);
    let url_payload: Vec<u8> = vec![0x00u8, 0x00, 0x00, 0x01];
    assert(url_payload@ =~= seq![0u8, 0, 0, 1]);
    let url_box = build_box(URL, &url_payload);
    put_bytes(&mut dref_payload, &url_box);
    let dref = build_box(DREF, &dref_payload);
    build_box(DINF, &dref)
}

/// Builds the video `stbl`.
pub fn build_video_stbl(config: &MuxideConfig) -> (r: Vec<u8>)
    requires
        config.fits(),
    ensures
        r@.len() <= 0x2_0400,
        r@ == video_stbl_box(*config),
{
    let stsd = build_video_stsd(config);
    build_stbl(&stsd)
}

/// Builds an `stbl` around a sample description.
fn build_stbl(stsd: &[u8]) -> (r: Vec<u8>)
    requires
        stsd@.len() <= 0x0100_0000,
    ensures
        r@ == stbl_box(stsd@),
{
    let mut payload: Vec<u8> = Vec::new();
    put_bytes(&mut payload, stsd);
    let stts = build_empty_stts();
    put_bytes(&mut payload, &stts);
    let stsc = build_empty_stsc();
    put_bytes(&mut payload, &stsc);
    let stsz = build_empty_stsz();
    put_bytes(&mut payload, &stsz);
    let stco = build_empty_stco();
    put_bytes(&mut payload, &stco);
    build_box(STBL, &payload)
}

/// Builds an `stsd` around one sample entry.
fn build_stsd(entry: &[u8]) -> (r: Vec<u8>)
    requires
        entry@.len() <= 0x0100_0000,
    ensures
        r@ == stsd_box(entry@),
{
    let mut payload: Vec<u8> = Vec::new();
    put_u32(&mut payload, 0);
    put_u32(&mut payload, 1);
    put_bytes(&mut payload, entry);
    build_box(STSD, &payload)
}

/// Builds the video `stsd`.
pub fn build_video_stsd(config: &MuxideConfig) -> (r: Vec<u8>)
    requires
        config.fits(),
    ensures
        r@.len() <= 0x2_0300,
        r@ == stsd_box(avc1_box(config.video_width, config.video_height, config.sps@, config.pps@)),
{
    let avc1 = build_avc1(config);
    build_stsd(&avc1)
}

/// Builds the `avc1` sample entry.
pub fn build_avc1(config: &MuxideConfig) -> (r: Vec<u8>)
    requires
        config.fits(),
    ensures
        r@.len() <= 0x2_0200,
        r@ == avc1_box(config.video_width, config.video_height, config.sps@, config.pps@),
{
    let mut payload: Vec<u8> = Vec::new();
    put_zeros(&mut payload, 6);
    put_u16(&mut payload, 1);
    put_u16(&mut payload, 0);
    put_u16(&mut payload, 0);
    put_zeros(&mut payload, 12);
    put_u16(&mut payload, #[verifier::truncate] (config.video_width as u16));
    put_u16(&mut payload, #[verifier::truncate] (config.video_height as u16));
    put_u32(&mut payload, 0x0048_0000);
    put_u32(&mut payload, 0x0048_0000);
    put_u32(&mut payload, 0);
    put_u16(&mut payload, 1);
    put_zeros(&mut payload, 32);
    put_u16(&mut payload, 0x0018);
    put_u16(&mut payload, 0xffff);
    let avcc = build_avcc(config);
    put_bytes(&mut payload, &avcc);
    build_box(AVC1, &payload)
}

/// Builds the `avcC` box carrying the configured SPS and PPS.
pub fn build_avcc(config: &MuxideConfig) -> (r: Vec<u8>)
    requires
        config.fits(),
    ensures
        r@.len() <= 0x2_0100,
        r@ == mp4_box(AVCC, avc_config_record(config.sps@, config.pps@)),
{
    let sps = &config.sps;
    let pps = &config.pps;
    let profile = if sps.len() > 1 { sps[1] } else { 0x42u8 };
    let compatibility = if sps.len() > 2 { sps[2] } else { 0x00u8 };
    let level = if sps.len() > 3 { sps[3] } else { 0x1eu8 };
    let mut payload: Vec<u8> = vec![1u8, profile, compatibility, level, 0xff, 0xe1];
    put_u16(&mut payload, sps.len() as u16);
    put_bytes(&mut payload, sps.as_slice());
    payload.push(1u8);
    put_u16(&mut payload, pps.len() as u16);
    put_bytes(&mut payload, pps.as_slice());
    assert(payload@ =~= avc_config_record(config.sps@, config.pps@));
    build_box(AVCC, &payload)
}

/// Builds an empty `stts`.
pub fn build_empty_stts() -> (r: Vec<u8>)
    ensures
        r@.len() <= 0x100,
        r@ == empty_table_box(STTS),
{
    build_empty_table(STTS)
}

/// Builds an empty `stsc`.
pub fn build_empty_stsc() -> (r: Vec<u8>)
    ensures
        r@.len() <= 0x100,
        r@ == empty_table_box(STSC),
{
    build_empty_table(STSC)
}

/// Builds an empty `stco`.
pub fn build_empty_stco() -> (r: Vec<u8>)
    ensures
        r@.len() <= 0x100,
        r@ == empty_table_box(STCO),
{
    build_empty_table(STCO)
}

/// Builds a table box with version, flags and entry count all zero.
fn build_empty_table(tag: u32) -> (r: Vec<u8>)
    ensures
        r@.len() <= 0x100,
        r@ == empty_table_box(tag),
{
    let mut payload: Vec<u8> = Vec::new();
    put_u32(&mut payload, 0);
    put_u32(&mut payload, 0);
    build_box(tag, &payload)
}

/// Builds an empty `stsz`.
pub fn build_empty_stsz() -> (r: Vec<u8>)
    ensures
        r@.len() <= 0x100,
        r@ == empty_stsz_box(),
{
    let mut payload: Vec<u8> = Vec::new();
    put_u32(&mut payload, 0);
    put_u32(&mut payload, 0);
    put_u32(&mut payload, 0);
    build_box(STSZ, &payload)
}

/// Builds the audio `trak`.
#[verifier::rlimit(50)]
pub fn build_audio_trak(config: &MuxideConfig) -> (r: Vec<u8>)
    requires
        config.fits(),
    ensures
        r@.len() <= 0x1_0700,
        r@ == audio_trak_box(*config),
{
    let mut payload: Vec<u8> = Vec::new();
    let tkhd = build_audio_tkhd();
    put_bytes(&mut payload, &tkhd);
    let mdia = build_audio_mdia(config);
    put_bytes(&mut payload, &mdia);
    assert(payload@ =~= tkhd@ + mdia@);
    proof {
        reveal(video_trak_box);
        reveal(audio_trak_box);
    }
    build_box(TRAK, &payload)
}

/// Builds the audio `tkhd`: track 2, volume 1.0, no size.
pub fn build_audio_tkhd() -> (r: Vec<u8>)
    ensures
        r@.len() <= 0x100,
        r@ == tkhd_box(2, 0x0100, 0, 0),
{
    build_tkhd(2, 0x0100, 0, 0)
}

/// Builds the audio `mdia`.
#[verifier::rlimit(50)]
pub fn build_audio_mdia(config: &MuxideConfig) -> (r: Vec<u8>)
    requires
        config.fits(),
    ensures
        r@.len() <= 0x1_0600,
        r@ == audio_mdia_box(*config),
{
    let audio_timescale = config.get_audio_timescale();
    let mut payload: Vec<u8> = Vec::new();
    let mdhd = build_mdhd(audio_timescale);
    put_bytes(&mut payload, &mdhd);
    let name: Vec<u8> = vec![0x53u8, 0x6f, 0x75, 0x6e, 0x64, 0x48, 0x61, 0x6e, 0x64, 0x6c, 0x65, 0x72, 0x00];
    assert(name@ =~= sound_handler_name());
    let hdlr = build_hdlr(SOUN, &name);
    put_bytes(&mut payload, &hdlr);
    let minf = build_audio_minf(config);
    put_bytes(&mut payload, &minf);
    assert(payload@ =~= mdhd@ + hdlr@ + minf@);
    build_box(MDIA, &payload)
}

/// Builds the audio `minf`.
pub fn build_audio_minf(config: &MuxideConfig) -> (r: Vec<u8>)
    requires
        config.fits(),
    ensures
        r@.len() <= 0x1_0500,
        r@ == audio_minf_box(*config),
{
    let mut payload: Vec<u8> = Vec::new();
    let smhd = build_smhd();
    put_bytes(&mut payload, &smhd);
    let dinf = build_dinf();
    put_bytes(&mut payload, &dinf);
    let stbl = build_audio_stbl(config);
    put_bytes(&mut payload, &stbl);
    build_box(MINF, &payload)
}

/// Builds `smhd`.
pub fn build_smhd() -> (r: Vec<u8>)
    ensures
        r@.len() <= 0x100,
        r@ == smhd_box(),
{
    let mut payload: Vec<u8> = Vec::new();
    put_u32(&mut payload, 0);
    put_u16(&mut payload, 0);
    put_u16(&mut payload, 0);
    build_box(SMHD, &payload)
}

/// Builds the audio `stbl`.
pub fn build_audio_stbl(config: &MuxideConfig) -> (r: Vec<u8>)
    requires
        config.fits(),
    ensures
        r@.len() <= 0x1_0400,
        r@ == audio_stbl_box(*config),
{
    let stsd = build_audio_stsd(config);
    build_stbl(&stsd)
}

/// Builds the audio `stsd`.
pub fn build_audio_stsd(config: &MuxideConfig) -> (r: Vec<u8>)
    requires
        config.fits(),
    ensures
        r@.len() <= 0x1_0300,
        r@ == stsd_box(mp4a_box(config.channels(), config.sample_rate(), config_asc(*config))),
{
    let mp4a = build_mp4a(config);
    build_stsd(&mp4a)
}

/// Builds the `mp4a` sample entry.
pub fn build_mp4a(config: &MuxideConfig) -> (r: Vec<u8>)
    requires
        config.fits(),
    ensures
        r@.len() <= 0x1_0200,
        r@ == mp4a_box(config.channels(), config.sample_rate(), config_asc(*config)),
{
    let sample_rate = config.get_sample_rate();
    let channels = config.get_channels();
    let mut payload: Vec<u8> = Vec::new();
    put_zeros(&mut payload, 6);
    put_u16(&mut payload, 1);
    put_u16(&mut payload, 0);
    put_u16(&mut payload, 0);
    put_u32(&mut payload, 0);
    put_u16(&mut payload, channels);
    put_u16(&mut payload, 16);
    put_u16(&mut payload, 0);
    put_u16(&mut payload, 0);
    put_u32(&mut payload, sample_rate << 16u32);
    let esds = build_esds(config);
    put_bytes(&mut payload, &esds);
    build_box(MP4A, &payload)
}

/// Builds `esds` around the configured or synthesised AudioSpecificConfig.
pub fn build_esds(config: &MuxideConfig) -> (r: Vec<u8>)
    requires
        config.fits(),
    ensures
        r@.len() <= 0x1_0100,
        r@ == esds_box(config_asc(*config)),
{
    let mut asc: Vec<u8> = Vec::new();
    match &config.audio_specific_config {
        Some(a) => put_bytes(&mut asc, a.as_slice()),
        None => {
            asc = build_audio_specific_config(config.get_sample_rate(), config.get_channels());
        },
    }
    assert(asc@ == config_asc(*config));
    let mut es_descriptor: Vec<u8> = Vec::new();
    put_u16(&mut es_descriptor, 0);
    es_descriptor.push(0u8);
    let mut decoder_config: Vec<u8> = vec![0x40u8, 0x15, 0x00, 0x00, 0x00];
    put_u32(&mut decoder_config, 128000);
    put_u32(&mut decoder_config, 128000);
    let dsi = build_descriptor(0x05, &asc);
    put_bytes(&mut decoder_config, &dsi);
    let decoder_config_descriptor = build_descriptor(0x04, &decoder_config);
    put_bytes(&mut es_descriptor, &decoder_config_descriptor);
    let sl_data: Vec<u8> = vec![0x02u8];
    let sl_config = build_descriptor(0x06, &sl_data);
    put_bytes(&mut es_descriptor, &sl_config);
    let es_descriptor_full = build_descriptor(0x03, &es_descriptor);
    let mut payload: Vec<u8> = Vec::new();
    put_u32(&mut payload, 0);
    put_bytes(&mut payload, &es_descriptor_full);
    assert(decoder_config@ =~= seq![0x40u8, 0x15u8, 0u8, 0u8, 0u8] + be32(128000) + be32(128000) + descriptor(5, asc@));
    assert(es_descriptor@ =~= be16(0) + seq![0u8] + descriptor(4, decoder_config@) + descriptor(6, seq![2u8]));
    build_box(ESDS, &payload)
}

/// Builds an ISO 14496-1 descriptor: tag, length field, data.
pub fn build_descriptor(tag: u8, data: &[u8]) -> (r: Vec<u8>)
    ensures
        r@ == descriptor(tag, data@),
{
    let mut result: Vec<u8> = vec![tag];
    let len = data.len();
    if len < 128 {
        result.push(len as u8);
    } else {
        result.push((0x80 + (len / 0x20_0000) % 0x80) as u8);
        result.push((0x80 + (len / 0x4000) % 0x80) as u8);
        result.push((0x80 + (len / 0x80) % 0x80) as u8);
        result.push((len % 0x80) as u8);
    }
    put_bytes(&mut result, data);
    assert(result@ =~= descriptor(tag, data@));
    result
}

/// The sampling-frequency index of a rate.
fn frequency_index(sample_rate: u32) -> (r: u8)
    ensures
        r == sampling_frequency_index(sample_rate),
{
    match sample_rate {
        96000 => 0,
        88200 => 1,
        64000 => 2,
        48000 => 3,
        44100 => 4,
        32000 => 5,
        24000 => 6,
        22050 => 7,
        16000 => 8,
        12000 => 9,
        11025 => 10,
        8000 => 11,
        7350 => 12,
        _ => 3,
    }
}

/// Builds the two-byte AAC-LC AudioSpecificConfig for a rate and channel count.
pub fn build_audio_specific_config(sample_rate: u32, channels: u16) -> (r: Vec<u8>)
    ensures
        r@ == audio_specific_config(sample_rate, channels),
{
    let sample_rate_index = frequency_index(sample_rate);
    let channel_config: u8 = if channels < 7 { channels as u8 } else { 7 };
    let byte0 = 2 * 8 + sample_rate_index / 2;
    let byte1 = (sample_rate_index % 2) * 128 + channel_config * 8;
    let r: Vec<u8> = vec![byte0, byte1];
    assert(r@ =~= audio_specific_config(sample_rate, channels));
    r
}

/// The synthesised AudioSpecificConfig decodes to AAC-LC (object type 2), the
/// rate's frequency index and the clamped channel count.
pub proof fn lemma_audio_specific_config_decodes(rate: u32, channels: u16)
    ensures
        audio_specific_config(rate, channels).len() == 2,
        decode_audio_specific_config(audio_specific_config(rate, channels))
            == (2u8, sampling_frequency_index(rate), channel_configuration(channels)),
{
    let idx = sampling_frequency_index(rate);
    let ch = channel_configuration(channels);
    let b = audio_specific_config(rate, channels);
    assert(idx <= 12 && ch <= 7);
    assert(b[0] == 16 + idx / 2);
    assert(b[1] == (idx % 2) * 128 + ch * 8);
}

} // verus!
