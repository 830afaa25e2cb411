//! A simpler streaming muxer: one `moof` + `mdat` fragment per sample, written
//! into a byte buffer that the caller drains.
use vstd::prelude::*;
use vstd::string::*;
use crate::boxes::{
    be16, be32, lemma_zero_bytes, mp4_box, put_bytes, put_u16, put_u32, put_zeros, zeros, AVC1, AVCC, DINF, DREF, ESDS, FTYP,
    HDLR, MDAT, MDHD, MDIA, MFHD, MINF, MOOF, MOOV, MP4A, MVEX, MVHD, SMHD, STBL, STCO, STSC, STSD, STSZ, STTS,
    TFDT, TFHD, TKHD, TRAF, TRAK, TREX, TRUN, URL, VMHD,
};
use crate::init_segment::{
    dinf_box, empty_table_box, hdlr_box, mdhd_box, mvex_box, mvhd_box, smhd_box,
    sound_handler_name, stbl_box, stsd_box, trex_box, unity_matrix, video_handler_name, vmhd_box, ISO5, ISO6,
    MP41, SOUN, VIDE,
};
use crate::media_segment::{mfhd_box, tfdt_box, tfhd_box};

verus! {

/// Size of every fragment's `moof`: header, `mfhd`, and one `traf` with a
/// one-sample `trun`.
pub const FRAGMENT_MOOF_SIZE: u32 = 96;
/// Duration of one AAC frame: 1024 samples.
pub const AAC_FRAME_DURATION: u32 = 1024;

/// Configuration of the streaming muxer.
#[derive(Debug, Clone)]
pub struct MuxerConfig {
    pub video_codec: String,
    pub audio_codec: String,
    pub video_width: u32,
    pub video_height: u32,
    pub video_timescale: u32,
    pub audio_timescale: u32,
    pub audio_sample_rate: u32,
    pub audio_channels: u16,
    /// Contents of the `avcC` box, if known.
    pub video_codec_config: Option<Vec<u8>>,
    /// Contents of the `esds` box, if known.
    pub audio_codec_config: Option<Vec<u8>>,
}

impl Default for MuxerConfig {
    fn default() -> (r: Self)
        ensures
            r.video_codec@ == "avc1"@,
            r.audio_codec@ == "mp4a"@,
            r.video_width == 1280,
            r.video_height == 720,
            r.video_timescale == 30000,
            r.audio_timescale == 48000,
            r.audio_sample_rate == 48000,
            r.audio_channels == 2,
            r.video_codec_config is None,
            r.audio_codec_config is None,
    {
        MuxerConfig {
            video_codec: String::from_str("avc1"),
            audio_codec: String::from_str("mp4a"),
            video_width: 1280,
            video_height: 720,
            video_timescale: 30000,
            audio_timescale: 48000,
            audio_sample_rate: 48000,
            audio_channels: 2,
            video_codec_config: None,
            audio_codec_config: None,
        }
    }
}

/// The codec configuration records are at most 16 MiB, so every box fits its
/// 32-bit size.
pub open spec fn codec_configs_fit(c: MuxerConfig) -> bool {
    &&& match c.video_codec_config {
        Some(v) => v@.len() <= 0x0100_0000,
        None => true,
    }
    &&& match c.audio_codec_config {
        Some(v) => v@.len() <= 0x0100_0000,
        None => true,
    }
}

// ---------------------------------------------------------------------------
// Layout
// ---------------------------------------------------------------------------

/// `ftyp`: brand `iso5`, minor version 512, brands `iso5 iso6 mp41`.
pub open spec fn stream_ftyp_box() -> Seq<u8> {
    mp4_box(FTYP, be32(ISO5) + be32(0x200) + be32(ISO5) + be32(ISO6) + be32(MP41))
}

/// The width or height field: the low 16 bits as the integer part of 16.16.
pub open spec fn dimension_field(x: u32) -> Seq<u8> {
    seq![(x >> 8u32) as u8, x as u8, 0u8, 0u8]
}

/// `tkhd`: enabled, in movie and in preview; volume 1.0 for audio.
pub open spec fn stream_tkhd_box(track_id: u32, is_video: bool, width: u32, height: u32) -> Seq<u8> {
    mp4_box(
        TKHD,
        be32(7) + be32(0) + be32(0) + be32(track_id) + be32(0) + be32(0) + zeros(8) + be16(0) + be16(0) + be16(
            if is_video { 0 } else { 0x0100 },
        ) + be16(0) + unity_matrix() + if is_video {
            dimension_field(width) + dimension_field(height)
        } else {
            zeros(8)
        },
    )
}

/// A box around a codec configuration record, or nothing.
pub open spec fn config_box(tag: u32, record: Option<Vec<u8>>) -> Seq<u8> {
    match record {
        Some(v) => mp4_box(tag, v@),
        None => Seq::empty(),
    }
}

/// The `avc1` sample entry.
pub open spec fn stream_avc1_box(c: MuxerConfig) -> Seq<u8> {
    mp4_box(
        AVC1,
        zeros(6) + be16(1) + zeros(16) + be16(c.video_width as u16) + be16(c.video_height as u16) + be32(
            0x0048_0000,
        ) + be32(0x0048_0000) + be32(0) + be16(1) + zeros(32) + be16(0x0018) + be16(0xffff) + config_box(
            AVCC,
            c.video_codec_config,
        ),
    )
}

/// The `mp4a` sample entry.
pub open spec fn stream_mp4a_box(c: MuxerConfig) -> Seq<u8> {
    mp4_box(
        MP4A,
        zeros(6) + be16(1) + zeros(8) + be16(c.audio_channels) + be16(16) + be16(0) + be16(0) + be32(
            c.audio_sample_rate << 16u32,
        ) + config_box(ESDS, c.audio_codec_config),
    )
}

/// The sample table of a track.
pub open spec fn stream_stbl_box(c: MuxerConfig, is_video: bool) -> Seq<u8> {
    stbl_box(stsd_box(if is_video { stream_avc1_box(c) } else { stream_mp4a_box(c) }))
}

/// The media information of a track.
pub open spec fn stream_minf_box(c: MuxerConfig, is_video: bool) -> Seq<u8> {
    mp4_box(MINF, (if is_video { vmhd_box() } else { smhd_box() }) + dinf_box() + stream_stbl_box(c, is_video))
}

/// The media box of a track.
pub open spec fn stream_mdia_box(c: MuxerConfig, timescale: u32, is_video: bool) -> Seq<u8> {
    mp4_box(
        MDIA,
        mdhd_box(timescale) + (if is_video {
            hdlr_box(VIDE, video_handler_name())
        } else {
            hdlr_box(SOUN, sound_handler_name())
        }) + stream_minf_box(c, is_video),
    )
}

/// A track: video is track 1, audio track 2.
#[verifier::opaque]
pub open spec fn stream_trak_box(c: MuxerConfig, is_video: bool) -> Seq<u8> {
    mp4_box(
        TRAK,
        stream_tkhd_box(if is_video { 1 } else { 2 }, is_video, c.video_width, c.video_height) + stream_mdia_box(
            c,
            if is_video { c.video_timescale } else { c.audio_timescale },
            is_video,
        ),
    )
}

/// `moov`: `mvhd`, the video track, the audio track, `mvex`.
pub open spec fn stream_moov_box(c: MuxerConfig) -> Seq<u8> {
    mp4_box(MOOV, mvhd_box(c.video_timescale, 3) + stream_trak_box(c, true) + stream_trak_box(c, false) + mvex_box(true))
}

/// The stream header: `ftyp` then `moov`.
pub open spec fn stream_header(c: MuxerConfig) -> Seq<u8> {
    stream_ftyp_box() + stream_moov_box(c)
}

/// A one-sample fragment: `moof` whose run points just past the `mdat` header.
pub open spec fn stream_moof_box(sequence_number: u32, track_id: u32, decode_time: u64, size: u32, duration: u32) -> Seq<u8> {
    mp4_box(
        MOOF,
        mfhd_box(sequence_number) + mp4_box(
            TRAF,
            tfhd_box(track_id) + tfdt_box(decode_time) + mp4_box(
                TRUN,
                be32(0x0000_0301) + be32(1) + be32((FRAGMENT_MOOF_SIZE + 8) as u32) + be32(duration) + be32(size),
            ),
        ),
    )
}

/// Microseconds to ticks of a timescale, truncating.
pub open spec fn micros_to_ticks(micros: u64, timescale: u32) -> u64 {
    (micros * timescale / 1_000_000) as u64
}

// ---------------------------------------------------------------------------
// State
// ---------------------------------------------------------------------------

/// State of the streaming muxer.
pub struct MuxerState {
    config: MuxerConfig,
    buffer: Vec<u8>,
    pub video_sequence_number: u32,
    pub audio_sequence_number: u32,
    pub initialized: bool,
}

impl MuxerState {
    /// The configuration.
    pub closed spec fn config_view(&self) -> MuxerConfig {
        self.config
    }

    /// The bytes written and not yet handed out.
    pub closed spec fn buffered(&self) -> Seq<u8> {
        self.buffer@
    }

    /// Sequence numbers (video, audio) and whether initialized.
    pub closed spec fn counters(&self) -> (u32, u32, bool) {
        (self.video_sequence_number, self.audio_sequence_number, self.initialized)
    }

    /// A new muxer for `config`, not yet initialized.
    pub fn new(config: MuxerConfig) -> (r: Self)
        ensures
            r.config_view() == config,
            r.buffered().len() == 0,
            r.counters() == (0u32, 0u32, false),
    {
        MuxerState { config, buffer: Vec::new(), video_sequence_number: 0, audio_sequence_number: 0, initialized: false }
    }

    /// Writes the stream header (`ftyp` + `moov`) into the emptied buffer.
    pub fn init(&mut self) -> (r: Result<(), String>)
        requires
            codec_configs_fit(old(self).config_view()),
        ensures
            old(self).counters().2 ==> (r matches Err(e) && e@ == "Muxer already initialized"@
                && *final(self) == *old(self)),
            !old(self).counters().2 ==> ({
                &&& r is Ok
                &&& final(self).buffered() == stream_header(old(self).config_view())
                &&& final(self).counters() == (old(self).counters().0, old(self).counters().1, true)
                &&& final(self).config_view() == old(self).config_view()
            }),
    {
        if self.initialized {
            return Err(String::from_str("Muxer already initialized"));
        }
        self.buffer.clear();
        self.write_ftyp();
        self.write_moov();
        self.initialized = true;
        assert(self.buffer@ =~= stream_header(self.config));
        Ok(())
    }

    /// Writes a one-sample video fragment (`moof` + `mdat`); the timestamp is
    /// in microseconds.
    pub fn push_video_chunk(&mut self, data: &[u8], timestamp: u64, is_keyframe: bool) -> (r: Result<(), String>)
        requires
            old(self).counters().2 ==> {
                &&& old(self).counters().0 < u32::MAX
                &&& timestamp * old(self).config_view().video_timescale <= u64::MAX
                &&& data@.len() + 8 <= u32::MAX
            },
        ensures
            !old(self).counters().2 ==> (r matches Err(e) && e@ == "Muxer not initialized"@
                && *final(self) == *old(self)),
            old(self).counters().2 ==> ({
                let seq_no = (old(self).counters().0 + 1) as u32;
                let c = old(self).config_view();
                &&& r is Ok
                &&& final(self).counters() == (seq_no, old(self).counters().1, true)
                &&& final(self).config_view() == c
                &&& final(self).buffered() == old(self).buffered() + stream_moof_box(
                    seq_no,
                    1,
                    micros_to_ticks(timestamp, c.video_timescale),
                    data@.len() as u32,
                    (c.video_timescale / 30) as u32,
                ) + mp4_box(MDAT, data@)
            }),
    {
        if !self.initialized {
            return Err(String::from_str("Muxer not initialized"));
        }
        let ghost before = self.buffer@;
        self.video_sequence_number = self.video_sequence_number + 1;
        let timestamp_scaled = timestamp * (self.config.video_timescale as u64) / 1_000_000;
        self.write_moof_video(timestamp_scaled, data.len() as u32, is_keyframe);
        self.write_mdat(data);
        assert(self.buffer@ =~= before + stream_moof_box(
            self.video_sequence_number,
            1,
            timestamp_scaled,
            data@.len() as u32,
            (self.config.video_timescale / 30) as u32,
        ) + mp4_box(MDAT, data@));
        Ok(())
    }

    /// Writes a one-sample audio fragment (`moof` + `mdat`); the timestamp is
    /// in microseconds.
    pub fn push_audio_chunk(&mut self, data: &[u8], timestamp: u64) -> (r: Result<(), String>)
        requires
            old(self).counters().2 ==> {
                &&& old(self).counters().1 < u32::MAX
                &&& timestamp * old(self).config_view().audio_timescale <= u64::MAX
                &&& data@.len() + 8 <= u32::MAX
            },
        ensures
            !old(self).counters().2 ==> (r matches Err(e) && e@ == "Muxer not initialized"@
                && *final(self) == *old(self)),
            old(self).counters().2 ==> ({
                let seq_no = (old(self).counters().1 + 1) as u32;
                let c = old(self).config_view();
                &&& r is Ok
                &&& final(self).counters() == (old(self).counters().0, seq_no, true)
                &&& final(self).config_view() == c
                &&& final(self).buffered() == old(self).buffered() + stream_moof_box(
                    seq_no,
                    2,
                    micros_to_ticks(timestamp, c.audio_timescale),
                    data@.len() as u32,
                    AAC_FRAME_DURATION,
                ) + mp4_box(MDAT, data@)
            }),
    {
        if !self.initialized {
            return Err(String::from_str("Muxer not initialized"));
        }
        let ghost before = self.buffer@;
        self.audio_sequence_number = self.audio_sequence_number + 1;
        let timestamp_scaled = timestamp * (self.config.audio_timescale as u64) / 1_000_000;
        self.write_moof_audio(timestamp_scaled, data.len() as u32);
        self.write_mdat(data);
        assert(self.buffer@ =~= before + stream_moof_box(
            self.audio_sequence_number,
            2,
            timestamp_scaled,
            data@.len() as u32,
            AAC_FRAME_DURATION,
        ) + mp4_box(MDAT, data@));
        Ok(())
    }

    /// Hands out the buffered bytes and empties the buffer.
    pub fn get_fragment(&mut self) -> (r: Vec<u8>)
        ensures
            r@ == old(self).buffered(),
            final(self).buffered().len() == 0,
            final(self).counters() == old(self).counters(),
            final(self).config_view() == old(self).config_view(),
    {
        let mut out: Vec<u8> = Vec::new();
        core::mem::swap(&mut self.buffer, &mut out);
        out
    }

    fn write_ftyp(&mut self)
        ensures
            final(self).buffer@ == old(self).buffer@ + stream_ftyp_box(),
            final(self).config == old(self).config,
            final(self).counters() == old(self).counters(),
    {
        let mut ftyp_data: Vec<u8> = Vec::new();
        put_u32(&mut ftyp_data, ISO5);
        put_u32(&mut ftyp_data, 0x200);
        put_u32(&mut ftyp_data, ISO5);
        put_u32(&mut ftyp_data, ISO6);
        put_u32(&mut ftyp_data, MP41);
        let size = 8 + ftyp_data.len() as u32;
        self.write_box_header(size, FTYP);
        put_bytes(&mut self.buffer, &ftyp_data);
        assert(self.buffer@ =~= old(self).buffer@ + stream_ftyp_box());
    }

    #[verifier::rlimit(50)]
    fn write_moov(&mut self)
        requires
            codec_configs_fit(old(self).config),
        ensures
            final(self).buffer@ == old(self).buffer@ + stream_moov_box(old(self).config),
            final(self).config == old(self).config,
            final(self).counters() == old(self).counters(),
    {
        let mut moov_data: Vec<u8> = Vec::new();
        self.write_mvhd(&mut moov_data);
        self.write_trak_video(&mut moov_data);
        self.write_trak_audio(&mut moov_data);
        self.write_mvex(&mut moov_data);
        let size = 8 + moov_data.len() as u32;
        self.write_box_header(size, MOOV);
        put_bytes(&mut self.buffer, &moov_data);
        assert(self.buffer@ =~= old(self).buffer@ + stream_moov_box(self.config));
    }

    fn write_mvhd(&self, buf: &mut Vec<u8>)
        ensures
            final(buf)@ == old(buf)@ + mvhd_box(self.config.video_timescale, 3),
    {
        proof {
            lemma_zero_bytes();
        }
        let mut mvhd_data: Vec<u8> = Vec::new();
        put_zeros(&mut mvhd_data, 12);
        put_u32(&mut mvhd_data, self.config.video_timescale);
        put_u32(&mut mvhd_data, 0);
        put_u32(&mut mvhd_data, 0x0001_0000);
        put_u16(&mut mvhd_data, 0x0100);
        put_zeros(&mut mvhd_data, 10);
        put_u32(&mut mvhd_data, 0x0001_0000);
        put_zeros(&mut mvhd_data, 12);
        put_u32(&mut mvhd_data, 0x0001_0000);
        put_zeros(&mut mvhd_data, 12);
        put_u32(&mut mvhd_data, 0x4000_0000);
        put_zeros(&mut mvhd_data, 24);
        put_u32(&mut mvhd_data, 3);
        assert(mvhd_data@ =~= be32(0) + be32(0) + be32(0) + be32(self.config.video_timescale) + be32(0) + be32(
            0x0001_0000,
        ) + be16(0x0100) + zeros(10) + unity_matrix() + zeros(24) + be32(3));
        let size = 8 + mvhd_data.len() as u32;
        self.write_box_header_to_buf(buf, size, MVHD);
        put_bytes(buf, &mvhd_data);
        assert(buf@ =~= old(buf)@ + mvhd_box(self.config.video_timescale, 3));
    }

    fn write_trak_video(&self, buf: &mut Vec<u8>)
        requires
            codec_configs_fit(self.config),
        ensures
            final(buf)@ == old(buf)@ + stream_trak_box(self.config, true),
            final(buf)@.len() <= old(buf)@.len() + 0x0100_1000,
    {
        let mut trak_data: Vec<u8> = Vec::new();
        self.write_tkhd(&mut trak_data, 1, true);
        self.write_mdia(&mut trak_data, 1, self.config.video_timescale, true);
        let size = 8 + trak_data.len() as u32;
        self.write_box_header_to_buf(buf, size, TRAK);
        put_bytes(buf, &trak_data);
        proof {
            reveal(stream_trak_box);
        }
        assert(buf@ =~= old(buf)@ + stream_trak_box(self.config, true));
    }

    fn write_trak_audio(&self, buf: &mut Vec<u8>)
        requires
            codec_configs_fit(self.config),
        ensures
            final(buf)@ == old(buf)@ + stream_trak_box(self.config, false),
            final(buf)@.len() <= old(buf)@.len() + 0x0100_1000,
    {
        let mut trak_data: Vec<u8> = Vec::new();
        self.write_tkhd(&mut trak_data, 2, false);
        self.write_mdia(&mut trak_data, 2, self.config.audio_timescale, false);
        let size = 8 + trak_data.len() as u32;
        self.write_box_header_to_buf(buf, size, TRAK);
        put_bytes(buf, &trak_data);
        proof {
            reveal(stream_trak_box);
        }
        assert(buf@ =~= old(buf)@ + stream_trak_box(self.config, false));
    }

    fn write_tkhd(&self, buf: &mut Vec<u8>, track_id: u32, is_video: bool)
        ensures
            final(buf)@ == old(buf)@ + stream_tkhd_box(track_id, is_video, self.config.video_width, self.config.video_height),
            final(buf)@.len() == old(buf)@.len() + 92,
    {
        proof {
            lemma_zero_bytes();
        }
        let mut tkhd_data: Vec<u8> = Vec::new();
        put_u32(&mut tkhd_data, 7);
        put_zeros(&mut tkhd_data, 8);
        put_u32(&mut tkhd_data, track_id);
        put_zeros(&mut tkhd_data, 20);
        if is_video {
            put_u16(&mut tkhd_data, 0);
        } else {
            put_u16(&mut tkhd_data, 0x0100);
        }
        put_zeros(&mut tkhd_data, 2);
        put_u32(&mut tkhd_data, 0x0001_0000);
        put_zeros(&mut tkhd_data, 12);
        put_u32(&mut tkhd_data, 0x0001_0000);
        put_zeros(&mut tkhd_data, 12);
        put_u32(&mut tkhd_data, 0x4000_0000);
        let ghost head = tkhd_data@;
        if is_video {
            let width = self.config.video_width;
            tkhd_data.push((width >> 8u32) as u8);
            tkhd_data.push(width as u8);
            put_zeros(&mut tkhd_data, 2);
            let height = self.config.video_height;
            tkhd_data.push((height >> 8u32) as u8);
            tkhd_data.push(height as u8);
            put_zeros(&mut tkhd_data, 2);
            assert(tkhd_data@ =~= head + dimension_field(width) + dimension_field(height));
        } else {
            put_zeros(&mut tkhd_data, 8);
        }
        assert(tkhd_data@ =~= be32(7) + be32(0) + be32(0) + be32(track_id) + be32(0) + be32(0) + zeros(8) + be16(0)
            + be16(0) + be16(if is_video { 0 } else { 0x0100 }) + be16(0) + unity_matrix() + if is_video {
            dimension_field(self.config.video_width) + dimension_field(self.config.video_height)
        } else {
            zeros(8)
        });
        let size = 8 + tkhd_data.len() as u32;
        self.write_box_header_to_buf(buf, size, TKHD);
        put_bytes(buf, &tkhd_data);
        assert(buf@ =~= old(buf)@ + stream_tkhd_box(track_id, is_video, self.config.video_width, self.config.video_height));
    }

    fn write_mdia(&self, buf: &mut Vec<u8>, track_id: u32, timescale: u32, is_video: bool)
        requires
            codec_configs_fit(self.config),
        ensures
            final(buf)@ == old(buf)@ + stream_mdia_box(self.config, timescale, is_video),
            final(buf)@.len() <= old(buf)@.len() + 0x0100_0800,
    {
        let mut mdia_data: Vec<u8> = Vec::new();
        self.write_mdhd(&mut mdia_data, timescale);
        self.write_hdlr(&mut mdia_data, is_video);
        self.write_minf(&mut mdia_data, is_video);
        let size = 8 + mdia_data.len() as u32;
        self.write_box_header_to_buf(buf, size, MDIA);
        put_bytes(buf, &mdia_data);
        assert(buf@ =~= old(buf)@ + stream_mdia_box(self.config, timescale, is_video));
    }

    fn write_mdhd(&self, buf: &mut Vec<u8>, timescale: u32)
        ensures
            final(buf)@ == old(buf)@ + mdhd_box(timescale),
            final(buf)@.len() == old(buf)@.len() + 32,
    {
        proof {
            lemma_zero_bytes();
        }
        let mut mdhd_data: Vec<u8> = Vec::new();
        put_zeros(&mut mdhd_data, 12);
        put_u32(&mut mdhd_data, timescale);
        put_u32(&mut mdhd_data, 0);
        mdhd_data.push(0x55u8);
        mdhd_data.push(0xc4u8);
        put_zeros(&mut mdhd_data, 2);
        let size = 8 + mdhd_data.len() as u32;
        self.write_box_header_to_buf(buf, size, MDHD);
        put_bytes(buf, &mdhd_data);
        assert(buf@ =~= old(buf)@ + mdhd_box(timescale));
    }

    fn write_hdlr(&self, buf: &mut Vec<u8>, is_video: bool)
        ensures
            final(buf)@ == old(buf)@ + if is_video {
                hdlr_box(VIDE, video_handler_name())
            } else {
                hdlr_box(SOUN, sound_handler_name())
            },
            final(buf)@.len() == old(buf)@.len() + 45,
    {
        proof {
            lemma_zero_bytes();
        }
        let handler_type = if is_video { VIDE } else { SOUN };
        let name: Vec<u8> = if is_video {
            vec![0x56u8, 0x69, 0x64, 0x65, 0x6f, 0x48, 0x61, 0x6e, 0x64, 0x6c, 0x65, 0x72, 0x00]
        } else {
            vec![0x53u8, 0x6f, 0x75, 0x6e, 0x64, 0x48, 0x61, 0x6e, 0x64, 0x6c, 0x65, 0x72, 0x00]
        };
        assert(name@ =~= if is_video { video_handler_name() } else { sound_handler_name() });
        let mut hdlr_data: Vec<u8> = Vec::new();
        put_zeros(&mut hdlr_data, 8);
        put_u32(&mut hdlr_data, handler_type);
        put_zeros(&mut hdlr_data, 12);
        put_bytes(&mut hdlr_data, &name);
        let size = 8 + hdlr_data.len() as u32;
        self.write_box_header_to_buf(buf, size, HDLR);
        put_bytes(buf, &hdlr_data);
        assert(buf@ =~= old(buf)@ + hdlr_box(handler_type, name@));
    }

    fn write_minf(&self, buf: &mut Vec<u8>, is_video: bool)
        requires
            codec_configs_fit(self.config),
        ensures
            final(buf)@ == old(buf)@ + stream_minf_box(self.config, is_video),
            final(buf)@.len() <= old(buf)@.len() + 0x0100_0400,
    {
        let mut minf_data: Vec<u8> = Vec::new();
        if is_video {
            self.write_vmhd(&mut minf_data);
        } else {
            self.write_smhd(&mut minf_data);
        }
        self.write_dinf(&mut minf_data);
        self.write_stbl(&mut minf_data, is_video);
        let size = 8 + minf_data.len() as u32;
        self.write_box_header_to_buf(buf, size, MINF);
        put_bytes(buf, &minf_data);
        assert(buf@ =~= old(buf)@ + stream_minf_box(self.config, is_video));
    }

    fn write_vmhd(&self, buf: &mut Vec<u8>)
        ensures
            final(buf)@ == old(buf)@ + vmhd_box(),
            final(buf)@.len() == old(buf)@.len() + 20,
    {
        let mut vmhd_data: Vec<u8> = Vec::new();
        put_u32(&mut vmhd_data, 1);
        put_zeros(&mut vmhd_data, 8);
        let size = 8 + vmhd_data.len() as u32;
        self.write_box_header_to_buf(buf, size, VMHD);
        put_bytes(buf, &vmhd_data);
        assert(buf@ =~= old(buf)@ + vmhd_box());
    }

    fn write_smhd(&self, buf: &mut Vec<u8>)
        ensures
            final(buf)@ == old(buf)@ + smhd_box(),
            final(buf)@.len() == old(buf)@.len() + 16,
    {
        proof {
            lemma_zero_bytes();
        }
        let mut smhd_data: Vec<u8> = Vec::new();
        put_zeros(&mut smhd_data, 8);
        let size = 8 + smhd_data.len() as u32;
        self.write_box_header_to_buf(buf, size, SMHD);
        put_bytes(buf, &smhd_data);
        assert(buf@ =~= old(buf)@ + smhd_box());
    }

    fn write_dinf(&self, buf: &mut Vec<u8>)
        ensures
            final(buf)@ == old(buf)@ + dinf_box(),
            final(buf)@.len() == old(buf)@.len() + 36,
    {
        proof {
            lemma_zero_bytes();
        }
        let mut dinf_data: Vec<u8> = Vec::new();
        let mut dref_data: Vec<u8> = Vec::new();
        put_u32(&mut dref_data, 0);
        put_u32(&mut dref_data, 1);
        let url_data: Vec<u8> = vec![0x00u8, 0x00, 0x00, 0x01];
        let url_size = 8 + url_data.len() as u32;
        put_u32(&mut dref_data, url_size);
        put_u32(&mut dref_data, URL);
        put_bytes(&mut dref_data, &url_data);
        assert(dref_data@ =~= be32(0) + be32(1) + mp4_box(URL, seq![0u8, 0, 0, 1]));
        let dref_size = 8 + dref_data.len() as u32;
        self.write_box_header_to_buf(&mut dinf_data, dref_size, DREF);
        put_bytes(&mut dinf_data, &dref_data);
        let size = 8 + dinf_data.len() as u32;
        self.write_box_header_to_buf(buf, size, DINF);
        put_bytes(buf, &dinf_data);
        assert(buf@ =~= old(buf)@ + dinf_box());
    }

    /// Writes the sample table: the sample entry (`avc1` or `mp4a`, with the
    /// codec configuration box where one is configured), then four empty tables.
    #[verifier::rlimit(50)]
    fn write_stbl(&self, buf: &mut Vec<u8>, is_video: bool)
        requires
            codec_configs_fit(self.config),
        ensures
            final(buf)@ == old(buf)@ + stream_stbl_box(self.config, is_video),
            final(buf)@.len() <= old(buf)@.len() + 0x0100_0200,
    {
        proof {
            lemma_zero_bytes();
        }
        let mut stbl_data: Vec<u8> = Vec::new();
        let mut stsd_data: Vec<u8> = Vec::new();
        put_u32(&mut stsd_data, 0);
        put_u32(&mut stsd_data, 1);
        let mut sample_entry: Vec<u8> = Vec::new();
        put_zeros(&mut sample_entry, 6);
        put_u16(&mut sample_entry, 1);
        if is_video {
            put_zeros(&mut sample_entry, 16);
            put_u16(&mut sample_entry, #[verifier::truncate] (self.config.video_width as u16));
            put_u16(&mut sample_entry, #[verifier::truncate] (self.config.video_height as u16));
            put_u32(&mut sample_entry, 0x0048_0000);
            put_u32(&mut sample_entry, 0x0048_0000);
            put_u32(&mut sample_entry, 0);
            put_u16(&mut sample_entry, 1);
            put_zeros(&mut sample_entry, 32);
            put_u16(&mut sample_entry, 0x0018);
            put_u16(&mut sample_entry, 0xffff);
            match &self.config.video_codec_config {
                Some(config) => {
                    put_u32(&mut sample_entry, 8 + config.len() as u32);
                    put_u32(&mut sample_entry, AVCC);
                    put_bytes(&mut sample_entry, config.as_slice());
                },
                None => {},
            }
            let entry_size = 8 + sample_entry.len() as u32;
            put_u32(&mut stsd_data, entry_size);
            put_u32(&mut stsd_data, AVC1);
            put_bytes(&mut stsd_data, &sample_entry);
            assert(stsd_data@ =~= be32(0) + be32(1) + stream_avc1_box(self.config));
        } else {
            put_zeros(&mut sample_entry, 8);
            put_u16(&mut sample_entry, self.config.audio_channels);
            put_u16(&mut sample_entry, 16);
            put_u16(&mut sample_entry, 0);
            put_u16(&mut sample_entry, 0);
            put_u32(&mut sample_entry, self.config.audio_sample_rate << 16u32);
            match &self.config.audio_codec_config {
                Some(config) => {
                    put_u32(&mut sample_entry, 8 + config.len() as u32);
                    put_u32(&mut sample_entry, ESDS);
                    put_bytes(&mut sample_entry, config.as_slice());
                },
                None => {},
            }
            let entry_size = 8 + sample_entry.len() as u32;
            put_u32(&mut stsd_data, entry_size);
            put_u32(&mut stsd_data, MP4A);
            put_bytes(&mut stsd_data, &sample_entry);
            assert(stsd_data@ =~= be32(0) + be32(1) + stream_mp4a_box(self.config));
        }
        let stsd_size = 8 + stsd_data.len() as u32;
        self.write_box_header_to_buf(&mut stbl_data, stsd_size, STSD);
        put_bytes(&mut stbl_data, &stsd_data);
        self.write_empty_table(&mut stbl_data, STTS);
        self.write_empty_table(&mut stbl_data, STSC);
        let mut stsz_data: Vec<u8> = Vec::new();
        put_zeros(&mut stsz_data, 12);
        let stsz_size = 8 + stsz_data.len() as u32;
        self.write_box_header_to_buf(&mut stbl_data, stsz_size, STSZ);
        put_bytes(&mut stbl_data, &stsz_data);
        assert(zeros(12) =~= be32(0) + be32(0) + be32(0));
        self.write_empty_table(&mut stbl_data, STCO);
        let size = 8 + stbl_data.len() as u32;
        self.write_box_header_to_buf(buf, size, STBL);
        put_bytes(buf, &stbl_data);
        assert(buf@ =~= old(buf)@ + stream_stbl_box(self.config, is_video));
    }

    /// Writes a table box whose version, flags and entry count are zero.
    fn write_empty_table(&self, buf: &mut Vec<u8>, box_type: u32)
        ensures
            final(buf)@ == old(buf)@ + empty_table_box(box_type),
    {
        proof {
            lemma_zero_bytes();
        }
        let mut data: Vec<u8> = Vec::new();
        put_zeros(&mut data, 8);
        assert(data@ =~= be32(0) + be32(0));
        let size = 8 + data.len() as u32;
        self.write_box_header_to_buf(buf, size, box_type);
        put_bytes(buf, &data);
        assert(buf@ =~= old(buf)@ + empty_table_box(box_type));
    }

    fn write_mvex(&self, buf: &mut Vec<u8>)
        ensures
            final(buf)@ == old(buf)@ + mvex_box(true),
            final(buf)@.len() == old(buf)@.len() + 72,
    {
        let mut mvex_data: Vec<u8> = Vec::new();
        self.write_trex(&mut mvex_data, 1);
        self.write_trex(&mut mvex_data, 2);
        let size = 8 + mvex_data.len() as u32;
        self.write_box_header_to_buf(buf, size, MVEX);
        put_bytes(buf, &mvex_data);
        assert(buf@ =~= old(buf)@ + mvex_box(true));
    }

    fn write_trex(&self, buf: &mut Vec<u8>, track_id: u32)
        ensures
            final(buf)@ == old(buf)@ + trex_box(track_id),
            final(buf)@.len() == old(buf)@.len() + 32,
    {
        proof {
            lemma_zero_bytes();
        }
        let mut trex_data: Vec<u8> = Vec::new();
        put_u32(&mut trex_data, 0);
        put_u32(&mut trex_data, track_id);
        put_u32(&mut trex_data, 1);
        put_zeros(&mut trex_data, 12);
        assert(trex_data@ =~= be32(0) + be32(track_id) + be32(1) + be32(0) + be32(0) + be32(0));
        let size = 8 + trex_data.len() as u32;
        self.write_box_header_to_buf(buf, size, TREX);
        put_bytes(buf, &trex_data);
        assert(buf@ =~= old(buf)@ + trex_box(track_id));
    }

    fn write_moof_video(&mut self, timestamp: u64, data_size: u32, is_keyframe: bool)
        ensures
            final(self).buffer@ == old(self).buffer@ + stream_moof_box(
                old(self).video_sequence_number,
                1,
                timestamp,
                data_size,
                (old(self).config.video_timescale / 30) as u32,
            ),
            final(self).config == old(self).config,
            final(self).counters() == old(self).counters(),
    {
        let mut moof_data: Vec<u8> = Vec::new();
        self.write_mfhd(&mut moof_data, self.video_sequence_number);
        self.write_traf(&mut moof_data, 1, timestamp, data_size, FRAGMENT_MOOF_SIZE, is_keyframe);
        let size = 8 + moof_data.len() as u32;
        self.write_box_header(size, MOOF);
        put_bytes(&mut self.buffer, &moof_data);
        assert(self.buffer@ =~= old(self).buffer@ + stream_moof_box(
            self.video_sequence_number,
            1,
            timestamp,
            data_size,
            (self.config.video_timescale / 30) as u32,
        ));
    }

    fn write_moof_audio(&mut self, timestamp: u64, data_size: u32)
        ensures
            final(self).buffer@ == old(self).buffer@ + stream_moof_box(
                old(self).audio_sequence_number,
                2,
                timestamp,
                data_size,
                AAC_FRAME_DURATION,
            ),
            final(self).config == old(self).config,
            final(self).counters() == old(self).counters(),
    {
        let mut moof_data: Vec<u8> = Vec::new();
        self.write_mfhd(&mut moof_data, self.audio_sequence_number);
        self.write_traf(&mut moof_data, 2, timestamp, data_size, FRAGMENT_MOOF_SIZE, false);
        let size = 8 + moof_data.len() as u32;
        self.write_box_header(size, MOOF);
        put_bytes(&mut self.buffer, &moof_data);
        assert(self.buffer@ =~= old(self).buffer@ + stream_moof_box(
            self.audio_sequence_number,
            2,
            timestamp,
            data_size,
            AAC_FRAME_DURATION,
        ));
    }

    fn write_mfhd(&self, buf: &mut Vec<u8>, sequence_number: u32)
        ensures
            final(buf)@ == old(buf)@ + mfhd_box(sequence_number),
            final(buf)@.len() == old(buf)@.len() + 16,
    {
        let mut mfhd_data: Vec<u8> = Vec::new();
        put_u32(&mut mfhd_data, 0);
        put_u32(&mut mfhd_data, sequence_number);
        let size = 8 + mfhd_data.len() as u32;
        self.write_box_header_to_buf(buf, size, MFHD);
        put_bytes(buf, &mfhd_data);
        assert(buf@ =~= old(buf)@ + mfhd_box(sequence_number));
    }

    /// Writes a one-sample `traf`: video runs last a thirtieth of a second,
    /// audio runs one AAC frame; the data starts right after the `mdat` header.
    fn write_traf(
        &self,
        buf: &mut Vec<u8>,
        track_id: u32,
        timestamp: u64,
        data_size: u32,
        moof_size: u32,
        is_keyframe: bool,
    )
        requires
            moof_size == FRAGMENT_MOOF_SIZE,
        ensures
            final(buf)@ == old(buf)@ + mp4_box(
                TRAF,
                tfhd_box(track_id) + tfdt_box(timestamp) + mp4_box(
                    TRUN,
                    be32(0x0000_0301) + be32(1) + be32((FRAGMENT_MOOF_SIZE + 8) as u32) + be32(
                        if track_id == 1 { (self.config.video_timescale / 30) as u32 } else { AAC_FRAME_DURATION },
                    ) + be32(data_size),
                ),
            ),
    {
        let mut traf_data: Vec<u8> = Vec::new();
        self.write_tfhd(&mut traf_data, track_id);
        self.write_tfdt(&mut traf_data, timestamp);
        let sample_duration = if track_id == 1 { self.config.video_timescale / 30 } else { AAC_FRAME_DURATION };
        let data_offset = moof_size + 8;
        self.write_trun(&mut traf_data, data_size, sample_duration, data_offset, is_keyframe);
        let size = 8 + traf_data.len() as u32;
        self.write_box_header_to_buf(buf, size, TRAF);
        put_bytes(buf, &traf_data);
        assert(buf@ =~= old(buf)@ + mp4_box(
            TRAF,
            tfhd_box(track_id) + tfdt_box(timestamp) + mp4_box(
                TRUN,
                be32(0x0000_0301) + be32(1) + be32((FRAGMENT_MOOF_SIZE + 8) as u32) + be32(sample_duration) + be32(data_size),
            ),
        ));
    }

    fn write_tfhd(&self, buf: &mut Vec<u8>, track_id: u32)
        ensures
            final(buf)@ == old(buf)@ + tfhd_box(track_id),
            final(buf)@.len() == old(buf)@.len() + 16,
    {
        let mut tfhd_data: Vec<u8> = Vec::new();
        put_u32(&mut tfhd_data, 0x0002_0000);
        put_u32(&mut tfhd_data, track_id);
        let size = 8 + tfhd_data.len() as u32;
        self.write_box_header_to_buf(buf, size, TFHD);
        put_bytes(buf, &tfhd_data);
        assert(buf@ =~= old(buf)@ + tfhd_box(track_id));
    }

    fn write_tfdt(&self, buf: &mut Vec<u8>, base_media_decode_time: u64)
        ensures
            final(buf)@ == old(buf)@ + tfdt_box(base_media_decode_time),
            final(buf)@.len() == old(buf)@.len() + 20,
    {
        let mut tfdt_data: Vec<u8> = Vec::new();
        put_u32(&mut tfdt_data, 0x0100_0000);
        crate::boxes::put_u64(&mut tfdt_data, base_media_decode_time);
        let size = 8 + tfdt_data.len() as u32;
        self.write_box_header_to_buf(buf, size, TFDT);
        put_bytes(buf, &tfdt_data);
        assert(buf@ =~= old(buf)@ + tfdt_box(base_media_decode_time));
    }

    fn write_trun(&self, buf: &mut Vec<u8>, sample_size: u32, sample_duration: u32, data_offset: u32, _is_keyframe: bool)
        ensures
            final(buf)@ == old(buf)@ + mp4_box(
                TRUN,
                be32(0x0000_0301) + be32(1) + be32(data_offset) + be32(sample_duration) + be32(sample_size),
            ),
            final(buf)@.len() == old(buf)@.len() + 28,
    {
        let mut trun_data: Vec<u8> = Vec::new();
        put_u32(&mut trun_data, 0x0000_0301);
        put_u32(&mut trun_data, 1);
        put_u32(&mut trun_data, data_offset);
        put_u32(&mut trun_data, sample_duration);
        put_u32(&mut trun_data, sample_size);
        let size = 8 + trun_data.len() as u32;
        self.write_box_header_to_buf(buf, size, TRUN);
        put_bytes(buf, &trun_data);
        assert(buf@ =~= old(buf)@ + mp4_box(
            TRUN,
            be32(0x0000_0301) + be32(1) + be32(data_offset) + be32(sample_duration) + be32(sample_size),
        ));
    }

    fn write_mdat(&mut self, data: &[u8])
        requires
            data@.len() + 8 <= u32::MAX,
        ensures
            final(self).buffer@ == old(self).buffer@ + mp4_box(MDAT, data@),
            final(self).config == old(self).config,
            final(self).counters() == old(self).counters(),
    {
        let size = 8 + data.len() as u32;
        self.write_box_header(size, MDAT);
        put_bytes(&mut self.buffer, data);
        assert(self.buffer@ =~= old(self).buffer@ + mp4_box(MDAT, data@));
    }

    fn write_box_header(&mut self, size: u32, box_type: u32)
        ensures
            final(self).buffer@ == old(self).buffer@ + be32(size) + be32(box_type),
            final(self).config == old(self).config,
            final(self).counters() == old(self).counters(),
    {
        put_u32(&mut self.buffer, size);
        put_u32(&mut self.buffer, box_type);
        assert(self.buffer@ =~= old(self).buffer@ + be32(size) + be32(box_type));
    }

    fn write_box_header_to_buf(&self, buf: &mut Vec<u8>, size: u32, box_type: u32)
        ensures
            final(buf)@ == old(buf)@ + be32(size) + be32(box_type),
    {
        put_u32(buf, size);
        put_u32(buf, box_type);
        assert(buf@ =~= old(buf)@ + be32(size) + be32(box_type));
    }
}

} // verus!
