//! The muxer state machine: buffers samples, cuts media segments on the video
//! cadence, and carries decode times across segments.
use vstd::prelude::*;
use vstd::string::*;
use crate::boxes::{be32, be64, put_bytes};
use crate::config::MuxideConfig;
use crate::init_segment::{build_init_segment, init_segment};
use crate::media_segment::{
    audio_data, audio_duration_sum, audio_total, build_media_segment_av, decode_times, frame_duration_sum,
    has_audio_run, lemma_segment_header_fields, media_segment, moof_size, segment_size, video_data,
    video_sample_duration, video_samples_ordered, video_total, AudioSample, VideoSample,
};

verus! {

/// Decode times never exceed this, so that a span of them in milliseconds fits
/// in 64 bits.
pub const MAX_DECODE_TIME: u64 = 18_446_744_073_709;

/// What one emitted media segment was made of.
pub struct SegmentRecord {
    pub sequence_number: u32,
    pub video: Seq<VideoSample>,
    pub audio: Seq<AudioSample>,
    /// `tfdt` of the video run.
    pub video_base: u64,
    /// `tfdt` of the audio run.
    pub audio_base: u64,
    pub audio_configured: bool,
}

/// The bytes of the media segment described by `r`.
pub open spec fn record_bytes(r: SegmentRecord) -> Seq<u8> {
    media_segment(r.video, r.audio, r.sequence_number, r.video_base, r.audio_base, r.audio_configured)
}

/// Microseconds to ticks of a timescale, truncating.
pub open spec fn ticks_of(micros: u64, timescale: u32) -> u64 {
    (micros * timescale / 1_000_000) as u64
}

/// Microseconds to ticks of a timescale, rounding to nearest.
pub open spec fn rounded_ticks_of(micros: u32, timescale: u32) -> u32 {
    #[verifier::truncate] (((micros * timescale + 500_000) / 1_000_000) as u32)
}

/// The buffered video spans at least the fragment duration.
pub open spec fn fragment_due(d: Seq<u64>, c: MuxideConfig) -> bool {
    d.len() >= 2 && (d[d.len() - 1] - d[0]) * 1000 / (c.video_timescale as int) >= c.fragment_duration_ms
}

/// `vs` is `old` with one more frame at its end.
pub open spec fn frame_appended(
    old: Seq<VideoSample>,
    vs: Seq<VideoSample>,
    data: Seq<u8>,
    ticks: u64,
    is_sync: bool,
) -> bool {
    &&& vs.len() == old.len() + 1
    &&& vs.subrange(0, old.len() as int) == old
    &&& vs.last().pts == ticks
    &&& vs.last().dts == ticks
    &&& vs.last().data@ == data
    &&& vs.last().is_sync == is_sync
}

/// `aus` is `old` with one more access unit at its end.
pub open spec fn unit_appended(
    old: Seq<AudioSample>,
    aus: Seq<AudioSample>,
    data: Seq<u8>,
    ticks: u64,
    duration: u32,
) -> bool {
    &&& aus.len() == old.len() + 1
    &&& aus.subrange(0, old.len() as int) == old
    &&& aus.last().pts == ticks
    &&& aus.last().data@ == data
    &&& aus.last().duration == duration
}

/// The concatenation of byte strings, in order.
pub open spec fn concat_all(segs: Seq<Seq<u8>>) -> Seq<u8>
    decreases segs.len(),
{
    if segs.len() == 0 {
        Seq::empty()
    } else {
        concat_all(segs.drop_last()) + segs.last()
    }
}

/// State of the fragmented-MP4 muxer.
pub struct MuxideMuxerState {
    config: MuxideConfig,
    initialized: bool,
    init_segment: Vec<u8>,
    pending_segments: Vec<Vec<u8>>,
    pub video_frame_count: u32,
    pub audio_frame_count: u32,
    video_samples: Vec<VideoSample>,
    video_sequence_number: u32,
    video_base_media_decode_time: u64,
    audio_samples: Vec<AudioSample>,
    audio_base_media_decode_time: u64,
    history: Ghost<Seq<SegmentRecord>>,
}

impl MuxideMuxerState {
    /// The configuration.
    pub closed spec fn config_view(&self) -> MuxideConfig {
        self.config
    }

    /// `init` has succeeded.
    pub closed spec fn is_initialized(&self) -> bool {
        self.initialized
    }

    /// The initialization segment built by `init`.
    pub closed spec fn init_bytes(&self) -> Seq<u8> {
        self.init_segment@
    }

    /// Media segments emitted and not yet handed out, oldest first.
    pub closed spec fn pending(&self) -> Seq<Seq<u8>> {
        self.pending_segments@.map_values(|v: Vec<u8>| v@)
    }

    /// Buffered video samples, in push order.
    pub closed spec fn video_buffer(&self) -> Seq<VideoSample> {
        self.video_samples@
    }

    /// Buffered audio samples, in push order.
    pub closed spec fn audio_buffer(&self) -> Seq<AudioSample> {
        self.audio_samples@
    }

    /// Video frames pushed so far.
    pub closed spec fn video_frames(&self) -> u32 {
        self.video_frame_count
    }

    /// Audio frames pushed so far.
    pub closed spec fn audio_frames(&self) -> u32 {
        self.audio_frame_count
    }

    /// The sequence number of the next media segment.
    pub closed spec fn sequence_number(&self) -> u32 {
        self.video_sequence_number
    }

    /// The video decode time at which the next media segment starts.
    pub closed spec fn video_decode_time(&self) -> u64 {
        self.video_base_media_decode_time
    }

    /// The audio decode time at which the next media segment starts.
    pub closed spec fn audio_decode_time(&self) -> u64 {
        self.audio_base_media_decode_time
    }

    /// Every media segment emitted so far, oldest first.
    pub closed spec fn history(&self) -> Seq<SegmentRecord> {
        self.history@
    }

    /// What the next media segment will be made of.
    pub open spec fn next_record(&self) -> SegmentRecord {
        SegmentRecord {
            sequence_number: self.sequence_number(),
            video: self.video_buffer(),
            audio: self.audio_buffer(),
            video_base: self.video_decode_time(),
            audio_base: self.audio_decode_time(),
            audio_configured: self.config_view().audio_configured(),
        }
    }

    /// Configuration, initialization and frame counts are those of `old`.
    pub open spec fn same_setup(&self, old: &Self) -> bool {
        &&& self.config_view() == old.config_view()
        &&& self.is_initialized() == old.is_initialized()
        &&& self.init_bytes() == old.init_bytes()
    }

    /// Everything but the buffers and frame counts is as in `old`.
    pub open spec fn same_segments(&self, old: &Self) -> bool {
        &&& self.same_setup(old)
        &&& self.pending() == old.pending()
        &&& self.history() == old.history()
        &&& self.sequence_number() == old.sequence_number()
        &&& self.video_decode_time() == old.video_decode_time()
        &&& self.audio_decode_time() == old.audio_decode_time()
    }

    /// `self` is `old` after emitting the segment of the buffered samples: the
    /// segment is recorded and pending, the buffers are empty, the sequence
    /// number moves on by one and each decode time by its run's durations.
    pub open spec fn flushed_from(&self, old: &Self) -> bool {
        &&& self.same_setup(old)
        &&& self.video_frames() == old.video_frames()
        &&& self.audio_frames() == old.audio_frames()
        &&& self.history() == old.history().push(old.next_record())
        &&& self.pending() == old.pending().push(record_bytes(old.next_record()))
        &&& self.video_buffer().len() == 0
        &&& self.audio_buffer().len() == 0
        &&& self.sequence_number() == old.sequence_number() + 1
        &&& self.video_decode_time() == old.video_decode_time() + video_total(old.video_buffer())
        &&& self.audio_decode_time() == old.audio_decode_time() + audio_total(old.audio_buffer())
    }

    /// The invariant of the muxer.
    pub closed spec fn wf(&self) -> bool {
        &&& self.config.video_timescale > 0
        &&& self.config.fits()
        &&& self.initialized ==> self.init_segment@ == init_segment(self.config)
        &&& !self.initialized ==> self.video_samples@.len() == 0 && self.audio_samples@.len() == 0
            && self.history@.len() == 0 && self.pending_segments@.len() == 0
        &&& video_samples_ordered(self.video_samples@)
        &&& forall|i: int| 0 <= i < self.video_samples@.len() ==> #[trigger] self.video_samples@[i].dts <= MAX_DECODE_TIME
        &&& self.audio_samples@.len() > 0 ==> self.config.audio_configured()
        &&& self.video_samples@.len() <= self.video_frame_count
        &&& self.audio_samples@.len() <= self.audio_frame_count
        &&& segment_size(self.video_samples@, self.audio_samples@, self.config.audio_configured()) <= u32::MAX
        &&& self.video_base_media_decode_time + video_total(self.video_samples@) <= u64::MAX
        &&& self.audio_base_media_decode_time + audio_total(self.audio_samples@) <= u64::MAX
        &&& self.video_sequence_number == self.history@.len() + 1
        &&& forall|k: int| 0 <= k < self.history@.len() ==> segment_size(
            (#[trigger] self.history@[k]).video,
            self.history@[k].audio,
            self.history@[k].audio_configured,
        ) <= u32::MAX
        &&& forall|k: int| 0 <= k < self.history@.len() ==> (#[trigger] self.history@[k]).sequence_number == k + 1
        &&& forall|k: int| 0 <= k < self.history@.len() - 1 ==> (#[trigger] self.history@[k + 1]).video_base
            == self.history@[k].video_base + video_total(self.history@[k].video)
        &&& forall|k: int| 0 <= k < self.history@.len() - 1 ==> (#[trigger] self.history@[k + 1]).audio_base
            == self.history@[k].audio_base + audio_total(self.history@[k].audio)
        &&& self.history@.len() == 0 ==> self.video_base_media_decode_time == 0 && self.audio_base_media_decode_time == 0
        &&& self.history@.len() > 0 ==> self.video_base_media_decode_time == self.history@.last().video_base
            + video_total(self.history@.last().video) && self.audio_base_media_decode_time
            == self.history@.last().audio_base + audio_total(self.history@.last().audio)
        &&& self.pending_segments@.len() <= self.history@.len()
        &&& forall|i: int| 0 <= i < self.pending_segments@.len() ==> (#[trigger] self.pending_segments@[i])@
            == record_bytes(self.history@[self.history@.len() - self.pending_segments@.len() + i])
    }

    /// A video push at `timestamp` with `data_len` bytes stays within what the
    /// format and the counters can hold: 32-bit frame count and sequence
    /// number, 64-bit tick arithmetic, non-decreasing timestamps, 32-bit box
    /// sizes and 64-bit decode times.
    pub open spec fn video_push_fits(&self, data_len: nat, timestamp: u64) -> bool {
        let c = self.config_view();
        let vb = self.video_buffer();
        let ab = self.audio_buffer();
        let ticks = ticks_of(timestamp, c.video_timescale);
        &&& self.video_frames() < u32::MAX
        &&& self.sequence_number() < u32::MAX
        &&& timestamp * c.video_timescale <= u64::MAX
        &&& vb.len() > 0 ==> vb.last().dts <= ticks
        &&& moof_size(vb.len() + 1, ab.len(), has_audio_run(c.audio_configured(), ab)) + 8 + video_data(
            vb,
            vb.len() as int,
        ).len() + data_len + audio_data(ab, ab.len() as int).len() <= u32::MAX
        &&& self.video_decode_time() + frame_duration_sum(decode_times(vb).push(ticks), vb.len() + 1 as int) <= u64::MAX
    }

    /// An audio push stays within what the format and the counters can hold.
    pub open spec fn audio_push_fits(&self, data_len: nat, timestamp: u64, duration: u32) -> bool {
        let c = self.config_view();
        let vb = self.video_buffer();
        let ab = self.audio_buffer();
        &&& self.audio_frames() < u32::MAX
        &&& timestamp * c.audio_ticks_per_second() <= u64::MAX
        &&& moof_size(vb.len(), ab.len() + 1, true) + 8 + video_data(vb, vb.len() as int).len() + audio_data(
            ab,
            ab.len() as int,
        ).len() + data_len <= u32::MAX
        &&& self.audio_decode_time() + audio_total(ab) + rounded_ticks_of(duration, c.audio_ticks_per_second())
            <= u64::MAX
    }

    /// A new muxer for `config`, not yet initialized: empty buffers, sequence
    /// number 1, decode times 0.
    pub fn new(config: MuxideConfig) -> (r: Self)
        requires
            config.video_timescale > 0,
            config.fits(),
        ensures
            r.wf(),
            r.config_view() == config,
            !r.is_initialized(),
            r.pending().len() == 0,
            r.history().len() == 0,
            r.video_buffer().len() == 0,
            r.audio_buffer().len() == 0,
            r.sequence_number() == 1,
            r.video_decode_time() == 0,
            r.audio_decode_time() == 0,
            r.video_frames() == 0,
            r.audio_frames() == 0,
    {
        let r = MuxideMuxerState {
            config,
            initialized: false,
            init_segment: Vec::new(),
            pending_segments: Vec::new(),
            video_frame_count: 0,
            audio_frame_count: 0,
            video_samples: Vec::new(),
            video_sequence_number: 1,
            video_base_media_decode_time: 0,
            audio_samples: Vec::new(),
            audio_base_media_decode_time: 0,
            history: Ghost(Seq::empty()),
        };
        assert(r.pending() =~= Seq::<Seq<u8>>::empty());
        r
    }

    /// Whether audio is configured.
    pub fn has_audio(&self) -> (r: bool)
        ensures
            r == self.config_view().audio_configured(),
    {
        self.config.has_audio()
    }

    /// Builds the initialization segment; fails if already initialized or if
    /// SPS or PPS is empty, leaving the muxer as it was.
    pub fn init(&mut self) -> (r: Result<(), String>)
        requires
            old(self).wf(),
        ensures
            final(self).wf(),
            old(self).is_initialized() ==> (r matches Err(e) && e@ == "Muxer already initialized"@
                && *final(self) == *old(self)),
            !old(self).is_initialized() && (old(self).config_view().sps@.len() == 0
                || old(self).config_view().pps@.len() == 0) ==> (r matches Err(e)
                && e@ == "SPS and PPS are required for initialization"@ && *final(self) == *old(self)),
            !old(self).is_initialized() && old(self).config_view().sps@.len() > 0
                && old(self).config_view().pps@.len() > 0 ==> r is Ok && final(self).is_initialized()
                && final(self).init_bytes() == init_segment(old(self).config_view())
                && final(self).config_view() == old(self).config_view() && final(self).pending() == old(self).pending()
                && final(self).history() == old(self).history()
                && final(self).video_buffer() == old(self).video_buffer()
                && final(self).audio_buffer() == old(self).audio_buffer()
                && final(self).sequence_number() == old(self).sequence_number()
                && final(self).video_decode_time() == old(self).video_decode_time()
                && final(self).audio_decode_time() == old(self).audio_decode_time()
                && final(self).video_frames() == old(self).video_frames()
                && final(self).audio_frames() == old(self).audio_frames(),
    {
        if self.initialized {
            return Err(String::from_str("Muxer already initialized"));
        }
        if self.config.sps.len() == 0 || self.config.pps.len() == 0 {
            return Err(String::from_str("SPS and PPS are required for initialization"));
        }
        self.init_segment = build_init_segment(&self.config);
        self.initialized = true;
        Ok(())
    }

    /// A copy of the initialization segment, once initialized.
    pub fn get_init_segment(&self) -> (r: Result<Vec<u8>, String>)
        ensures
            self.is_initialized() ==> (r matches Ok(b) && b@ == self.init_bytes()),
            !self.is_initialized() ==> (r matches Err(e) && e@ == "Muxer not initialized"@),
    {
        if !self.initialized {
            return Err(String::from_str("Muxer not initialized"));
        }
        let mut copy: Vec<u8> = Vec::new();
        put_bytes(&mut copy, self.init_segment.as_slice());
        assert(copy@ =~= self.init_segment@);
        Ok(copy)
    }
    /// The pending segments once the buffered samples have been emitted.
    pub open spec fn pending_after_flush(&self) -> Seq<Seq<u8>> {
        if self.video_buffer().len() > 0 {
            self.pending().push(record_bytes(self.next_record()))
        } else {
            self.pending()
        }
    }

    /// The emitted segments once the buffered samples have been emitted.
    pub open spec fn history_after_flush(&self) -> Seq<SegmentRecord> {
        if self.video_buffer().len() > 0 {
            self.history().push(self.next_record())
        } else {
            self.history()
        }
    }

    /// Buffers a video frame (AVCC-framed, timestamp in microseconds); emits a
    /// segment of everything buffered once the video spans the fragment
    /// duration.
    #[verifier::spinoff_prover]
    #[verifier::rlimit(100)]
    pub fn push_video_chunk(&mut self, data: &[u8], timestamp: u64, is_keyframe: bool) -> (r: Result<(), String>)
        requires
            old(self).wf(),
            old(self).is_initialized() ==> old(self).video_push_fits(data@.len(), timestamp),
        ensures
            final(self).wf(),
            !old(self).is_initialized() ==> (r matches Err(e) && e@ == "Muxer not initialized"@
                && *final(self) == *old(self)),
            old(self).is_initialized() ==> ({
                let ticks = ticks_of(timestamp, old(self).config_view().video_timescale);
                let due = fragment_due(decode_times(old(self).video_buffer()).push(ticks), old(self).config_view());
                let rec = final(self).history().last();
                &&& r is Ok
                &&& final(self).same_setup(old(self))
                &&& final(self).video_frames() == old(self).video_frames() + 1
                &&& final(self).audio_frames() == old(self).audio_frames()
                &&& due ==> {
                    &&& frame_appended(old(self).video_buffer(), rec.video, data@, ticks, is_keyframe)
                    &&& rec.sequence_number == old(self).sequence_number()
                    &&& rec.audio == old(self).audio_buffer()
                    &&& rec.video_base == old(self).video_decode_time()
                    &&& rec.audio_base == old(self).audio_decode_time()
                    &&& rec.audio_configured == old(self).config_view().audio_configured()
                    &&& final(self).history() == old(self).history().push(rec)
                    &&& final(self).pending() == old(self).pending().push(record_bytes(rec))
                    &&& final(self).video_buffer().len() == 0
                    &&& final(self).audio_buffer().len() == 0
                    &&& final(self).sequence_number() == old(self).sequence_number() + 1
                    &&& final(self).video_decode_time() == old(self).video_decode_time() + video_total(rec.video)
                    &&& final(self).audio_decode_time() == old(self).audio_decode_time() + audio_total(rec.audio)
                }
                &&& !due ==> {
                    &&& frame_appended(old(self).video_buffer(), final(self).video_buffer(), data@, ticks, is_keyframe)
                    &&& final(self).audio_buffer() == old(self).audio_buffer()
                    &&& final(self).same_segments(old(self))
                }
            }),
    {
        if !self.initialized {
            return Err(String::from_str("Muxer not initialized"));
        }
        let ghost old_state = *self;
        let pts = timestamp * (self.config.video_timescale as u64) / 1_000_000;
        assert(pts <= MAX_DECODE_TIME) by (nonlinear_arith)
            requires
                timestamp * self.config.video_timescale <= u64::MAX,
                pts == timestamp * self.config.video_timescale / 1_000_000,
        ;
        let copy = copy_bytes(data);
        self.video_samples.push(VideoSample { pts, dts: pts, data: copy, is_sync: is_keyframe });
        self.video_frame_count = self.video_frame_count + 1;
        proof {
            lemma_video_push_wf(old_state, *self, timestamp, self.video_samples@.last());
            assert(self.video_samples@.subrange(0, old_state.video_samples@.len() as int) =~= old_state.video_samples@);
        }
        let ghost mid = *self;
        self.check_and_flush_segments();
        proof {
            if fragment_due(decode_times(mid.video_samples@), mid.config) {
                assert(self.history@.last() == mid.next_record());
            }
        }
        Ok(())
    }

    /// Buffers an AAC access unit (timestamp and duration in microseconds; the
    /// duration is rounded to the nearest tick). Fails if audio is not
    /// configured.
    #[verifier::spinoff_prover]
    #[verifier::rlimit(100)]
    pub fn push_audio_chunk(&mut self, data: &[u8], timestamp: u64, duration: u32) -> (r: Result<(), String>)
        requires
            old(self).wf(),
            old(self).is_initialized() && old(self).config_view().audio_configured() ==> old(self).audio_push_fits(
                data@.len(),
                timestamp,
                duration,
            ),
        ensures
            final(self).wf(),
            !old(self).is_initialized() ==> (r matches Err(e) && e@ == "Muxer not initialized"@
                && *final(self) == *old(self)),
            old(self).is_initialized() && !old(self).config_view().audio_configured() ==> (r matches Err(e) && e@
                == "Audio not configured"@ && *final(self) == *old(self)),
            old(self).is_initialized() && old(self).config_view().audio_configured() ==> ({
                let ts = old(self).config_view().audio_ticks_per_second();
                &&& r is Ok
                &&& unit_appended(
                    old(self).audio_buffer(),
                    final(self).audio_buffer(),
                    data@,
                    ticks_of(timestamp, ts),
                    rounded_ticks_of(duration, ts),
                )
                &&& final(self).video_buffer() == old(self).video_buffer()
                &&& final(self).same_segments(old(self))
                &&& final(self).audio_frames() == old(self).audio_frames() + 1
                &&& final(self).video_frames() == old(self).video_frames()
            }),
    {
        if !self.initialized {
            return Err(String::from_str("Muxer not initialized"));
        }
        if !self.has_audio() {
            return Err(String::from_str("Audio not configured"));
        }
        let ghost old_state = *self;
        let audio_timescale = self.config.get_audio_timescale();
        let pts = timestamp * (audio_timescale as u64) / 1_000_000;
        assert((duration as u64) * (audio_timescale as u64) <= 0xffff_fffe_0000_0001u64) by (nonlinear_arith)
            requires
                duration <= u32::MAX,
                audio_timescale <= u32::MAX,
        ;
        let duration_ts = #[verifier::truncate] (((duration as u64 * audio_timescale as u64 + 500_000) / 1_000_000) as u32);
        let copy = copy_bytes(data);
        self.audio_samples.push(AudioSample { pts, data: copy, duration: duration_ts });
        self.audio_frame_count = self.audio_frame_count + 1;
        proof {
            lemma_audio_push_wf(old_state, *self, timestamp, duration, self.audio_samples@.last());
            assert(self.audio_samples@.subrange(0, old_state.audio_samples@.len() as int) =~= old_state.audio_samples@);
        }
        Ok(())
    }

    /// Emits a segment once the buffered video spans the fragment duration.
    fn check_and_flush_segments(&mut self)
        requires
            old(self).wf(),
            old(self).is_initialized(),
            old(self).sequence_number() < u32::MAX,
        ensures
            final(self).wf(),
            fragment_due(decode_times(old(self).video_buffer()), old(self).config_view()) ==> final(self).flushed_from(
                old(self),
            ),
            !fragment_due(decode_times(old(self).video_buffer()), old(self).config_view()) ==> *final(self) == *old(self),
    {
        let n = self.video_samples.len();
        if n < 2 {
            return;
        }
        proof {
            lemma_dts_ordered(self.video_samples@, 0, n - 1);
        }
        let first_dts = self.video_samples[0].dts;
        let last_dts = self.video_samples[n - 1].dts;
        let duration_ticks = last_dts - first_dts;
        let duration_ms = duration_ticks * 1000 / (self.config.video_timescale as u64);
        if duration_ms >= self.config.fragment_duration_ms as u64 {
            self.flush_segments();
        }
    }

    /// The sum of the video `trun` durations: the very sum by which the video
    /// decode time advances.
    fn calculate_video_trun_total_duration(samples: &[VideoSample]) -> (r: u64)
        requires
            video_samples_ordered(samples@),
            video_total(samples@) <= u64::MAX,
        ensures
            r == video_total(samples@),
    {
        if samples.len() == 0 {
            return 0;
        }
        let mut total: u64 = 0;
        let mut i: usize = 0;
        while i < samples.len()
            invariant
                i <= samples@.len(),
                video_samples_ordered(samples@),
                video_total(samples@) <= u64::MAX,
                total == frame_duration_sum(decode_times(samples@), i as int),
            decreases samples@.len() - i,
        {
            proof {
                lemma_frame_duration_sum_monotone(decode_times(samples@), i as int + 1, samples@.len() as int);
            }
            total = total + video_sample_duration(samples, i) as u64;
            i = i + 1;
        }
        total
    }

    /// The sum of the audio `trun` durations.
    fn calculate_audio_trun_total_duration(samples: &[AudioSample]) -> (r: u64)
        requires
            audio_total(samples@) <= u64::MAX,
        ensures
            r == audio_total(samples@),
    {
        let mut total: u64 = 0;
        let mut i: usize = 0;
        while i < samples.len()
            invariant
                i <= samples@.len(),
                audio_total(samples@) <= u64::MAX,
                total == audio_duration_sum(samples@, i as int),
            decreases samples@.len() - i,
        {
            proof {
                lemma_audio_duration_sum_monotone(samples@, i as int + 1, samples@.len() as int);
            }
            total = total + samples[i].duration as u64;
            i = i + 1;
        }
        total
    }

    /// Emits the segment of everything buffered, if any video is buffered.
    fn flush_segments(&mut self)
        requires
            old(self).wf(),
            old(self).is_initialized(),
            old(self).video_buffer().len() > 0 ==> old(self).sequence_number() < u32::MAX,
        ensures
            final(self).wf(),
            old(self).video_buffer().len() > 0 ==> final(self).flushed_from(old(self)),
            old(self).video_buffer().len() == 0 ==> *final(self) == *old(self),
    {
        if self.video_samples.len() == 0 {
            return;
        }
        let ghost old_state = *self;
        let ghost rec = self.next_record();
        let segment = build_media_segment_av(
            self.video_samples.as_slice(),
            self.audio_samples.as_slice(),
            self.video_sequence_number,
            self.video_base_media_decode_time,
            self.audio_base_media_decode_time,
            self.config.has_audio(),
        );
        self.video_sequence_number = self.video_sequence_number + 1;
        let video_total_duration = Self::calculate_video_trun_total_duration(self.video_samples.as_slice());
        self.video_base_media_decode_time = self.video_base_media_decode_time + video_total_duration;
        let audio_total_duration = Self::calculate_audio_trun_total_duration(self.audio_samples.as_slice());
        self.audio_base_media_decode_time = self.audio_base_media_decode_time + audio_total_duration;
        self.video_samples.clear();
        self.audio_samples.clear();
        self.pending_segments.push(segment);
        self.history = Ghost(self.history@.push(rec));
        proof {
            assert(self.pending() =~= old_state.pending().push(record_bytes(rec)));
            assert(video_total(self.video_samples@) == 0);
            assert(audio_total(self.audio_samples@) == 0);
            assert(video_data(self.video_samples@, 0) =~= Seq::<u8>::empty());
            assert(audio_data(self.audio_samples@, 0) =~= Seq::<u8>::empty());
            let h = self.history@;
            let pl = self.pending_segments@.len();
            assert forall|i: int| 0 <= i < pl implies (#[trigger] self.pending_segments@[i])@ == record_bytes(
                h[h.len() - pl + i],
            ) by {
                if i < pl - 1 {
                    assert(self.pending_segments@[i] == old_state.pending_segments@[i]);
                    assert(h[h.len() - pl + i] == old_state.history@[old_state.history@.len()
                        - old_state.pending_segments@.len() + i]);
                }
            }
            assert forall|k: int| 0 <= k < h.len() implies (#[trigger] h[k]).sequence_number == k + 1 by {
                if k < h.len() - 1 {
                    assert(h[k] == old_state.history@[k]);
                }
            }
            assert forall|k: int| 0 <= k < h.len() implies segment_size(
                (#[trigger] h[k]).video,
                h[k].audio,
                h[k].audio_configured,
            ) <= u32::MAX by {
                if k < h.len() - 1 {
                    assert(h[k] == old_state.history@[k]);
                }
            }
            assert forall|k: int| 0 <= k < h.len() - 1 implies (#[trigger] h[k + 1]).video_base == h[k].video_base
                + video_total(h[k].video) by {
                if k < h.len() - 2 {
                    assert(h[k] == old_state.history@[k] && h[k + 1] == old_state.history@[k + 1]);
                } else {
                    assert(h[k] == old_state.history@.last());
                }
            }
            assert forall|k: int| 0 <= k < h.len() - 1 implies (#[trigger] h[k + 1]).audio_base == h[k].audio_base
                + audio_total(h[k].audio) by {
                if k < h.len() - 2 {
                    assert(h[k] == old_state.history@[k] && h[k + 1] == old_state.history@[k + 1]);
                } else {
                    assert(h[k] == old_state.history@.last());
                }
            }
        }
    }

    /// Emits the segment of everything buffered, whatever its duration.
    pub fn force_flush(&mut self) -> (r: Result<(), String>)
        requires
            old(self).wf(),
            old(self).is_initialized() && old(self).video_buffer().len() > 0 ==> old(self).sequence_number() < u32::MAX,
        ensures
            final(self).wf(),
            !old(self).is_initialized() ==> (r matches Err(e) && e@ == "Muxer not initialized"@
                && *final(self) == *old(self)),
            old(self).is_initialized() ==> r is Ok,
            old(self).is_initialized() && old(self).video_buffer().len() > 0 ==> final(self).flushed_from(old(self)),
            old(self).is_initialized() && old(self).video_buffer().len() == 0 ==> *final(self) == *old(self),
    {
        if !self.initialized {
            return Err(String::from_str("Muxer not initialized"));
        }
        self.flush_segments();
        Ok(())
    }

    /// Hands out the pending media segments, oldest first, and forgets them.
    pub fn get_pending_segments(&mut self) -> (r: Vec<Vec<u8>>)
        requires
            old(self).wf(),
        ensures
            final(self).wf(),
            r@.len() == old(self).pending().len(),
            forall|i: int| 0 <= i < r@.len() ==> (#[trigger] r@[i])@ == old(self).pending()[i],
            final(self).pending().len() == 0,
            final(self).history() == old(self).history(),
            final(self).same_setup(old(self)),
            final(self).video_buffer() == old(self).video_buffer(),
            final(self).audio_buffer() == old(self).audio_buffer(),
            final(self).sequence_number() == old(self).sequence_number(),
            final(self).video_decode_time() == old(self).video_decode_time(),
            final(self).audio_decode_time() == old(self).audio_decode_time(),
    {
        let mut out: Vec<Vec<u8>> = Vec::new();
        core::mem::swap(&mut self.pending_segments, &mut out);
        assert(self.pending() =~= Seq::<Seq<u8>>::empty());
        out
    }

    /// Whether media segments are pending.
    pub fn has_pending_segments(&self) -> (r: bool)
        ensures
            r == (self.pending().len() > 0),
    {
        self.pending_segments.len() > 0
    }

    /// Emits what is buffered, then returns the initialization segment
    /// followed by every pending media segment, and forgets them.
    #[verifier::spinoff_prover]
    #[verifier::rlimit(100)]
    pub fn get_complete_file(&mut self) -> (r: Result<Vec<u8>, String>)
        requires
            old(self).wf(),
            old(self).is_initialized() && old(self).video_buffer().len() > 0 ==> old(self).sequence_number() < u32::MAX,
        ensures
            final(self).wf(),
            !old(self).is_initialized() ==> (r matches Err(e) && e@ == "Muxer not initialized"@
                && *final(self) == *old(self)),
            old(self).is_initialized() ==> ({
                &&& r matches Ok(b) && b@ == old(self).init_bytes() + concat_all(old(self).pending_after_flush())
                &&& final(self).pending().len() == 0
                &&& final(self).history() == old(self).history_after_flush()
                &&& final(self).video_buffer().len() == 0
                &&& final(self).same_setup(old(self))
            }),
    {
        if !self.initialized {
            return Err(String::from_str("Muxer not initialized"));
        }
        let ghost old_state = *self;
        self.force_flush()?;
        let ghost segs = self.pending();
        assert(segs == old_state.pending_after_flush());
        let mut result: Vec<u8> = Vec::new();
        put_bytes(&mut result, self.init_segment.as_slice());
        let mut i: usize = 0;
        while i < self.pending_segments.len()
            invariant
                i <= self.pending_segments@.len(),
                segs == self.pending(),
                result@ == old_state.init_bytes() + concat_all(segs.subrange(0, i as int)),
            decreases self.pending_segments@.len() - i,
        {
            proof {
                assert(segs.subrange(0, i as int + 1).drop_last() =~= segs.subrange(0, i as int));
            }
            put_bytes(&mut result, self.pending_segments[i].as_slice());
            i = i + 1;
        }
        assert(segs.subrange(0, segs.len() as int) =~= segs);
        self.pending_segments.clear();
        assert(self.pending() =~= Seq::<Seq<u8>>::empty());
        Ok(result)
    }
}

/// A copy of `src`.
fn copy_bytes(src: &[u8]) -> (r: Vec<u8>)
    ensures
        r@ == src@,
{
    let mut v: Vec<u8> = Vec::new();
    put_bytes(&mut v, src);
    assert(v@ =~= src@);
    v
}

proof fn lemma_dts_ordered(vs: Seq<VideoSample>, i: int, j: int)
    requires
        video_samples_ordered(vs),
        0 <= i <= j < vs.len(),
    ensures
        vs[i].dts <= vs[j].dts,
    decreases j - i,
{
    if i < j {
        lemma_dts_ordered(vs, i, j - 1);
        assert(vs[j - 1].dts <= vs[j].dts);
    }
}

proof fn lemma_frame_duration_sum_monotone(d: Seq<u64>, m: int, n: int)
    requires
        0 <= m <= n,
    ensures
        frame_duration_sum(d, m) <= frame_duration_sum(d, n),
    decreases n - m,
{
    if m < n {
        lemma_frame_duration_sum_monotone(d, m, n - 1);
    }
}

proof fn lemma_audio_duration_sum_monotone(aus: Seq<AudioSample>, m: int, n: int)
    requires
        0 <= m <= n,
    ensures
        audio_duration_sum(aus, m) <= audio_duration_sum(aus, n),
    decreases n - m,
{
    if m < n {
        lemma_audio_duration_sum_monotone(aus, m, n - 1);
    }
}

/// The video bytes of a prefix depend on that prefix alone.
proof fn lemma_video_data_prefix(a: Seq<VideoSample>, b: Seq<VideoSample>, n: int)
    requires
        0 <= n <= a.len(),
        n <= b.len(),
        forall|i: int| 0 <= i < n ==> a[i] == b[i],
    ensures
        video_data(a, n) == video_data(b, n),
    decreases n,
{
    if n > 0 {
        lemma_video_data_prefix(a, b, n - 1);
    }
}

/// The audio bytes and durations of a prefix depend on that prefix alone.
proof fn lemma_audio_prefix(a: Seq<AudioSample>, b: Seq<AudioSample>, n: int)
    requires
        0 <= n <= a.len(),
        n <= b.len(),
        forall|i: int| 0 <= i < n ==> a[i] == b[i],
    ensures
        audio_data(a, n) == audio_data(b, n),
        audio_duration_sum(a, n) == audio_duration_sum(b, n),
    decreases n,
{
    if n > 0 {
        lemma_audio_prefix(a, b, n - 1);
    }
}

/// Appending a frame that respects the push limits keeps the invariant.
proof fn lemma_video_push_wf(old: MuxideMuxerState, mid: MuxideMuxerState, timestamp: u64, s: VideoSample)
    requires
        old.wf(),
        old.initialized,
        old.video_push_fits(s.data@.len(), timestamp),
        s.pts == ticks_of(timestamp, old.config.video_timescale),
        s.dts == s.pts,
        s.pts <= MAX_DECODE_TIME,
        mid.config == old.config,
        mid.initialized == old.initialized,
        mid.init_segment@ == old.init_segment@,
        mid.pending_segments@ == old.pending_segments@,
        mid.history@ == old.history@,
        mid.video_sequence_number == old.video_sequence_number,
        mid.video_base_media_decode_time == old.video_base_media_decode_time,
        mid.audio_base_media_decode_time == old.audio_base_media_decode_time,
        mid.audio_samples@ == old.audio_samples@,
        mid.audio_frame_count == old.audio_frame_count,
        mid.video_frame_count == old.video_frame_count + 1,
        mid.video_samples@ == old.video_samples@.push(s),
    ensures
        mid.wf(),
        decode_times(mid.video_samples@) == decode_times(old.video_samples@).push(s.dts),
{
    let vb = old.video_samples@;
    let nb = mid.video_samples@;
    assert(decode_times(nb) =~= decode_times(vb).push(s.dts));
    lemma_video_data_prefix(vb, nb, vb.len() as int);
    assert(video_data(nb, nb.len() as int) == video_data(vb, vb.len() as int) + s.data@);
    assert forall|i: int| 0 <= i < nb.len() - 1 implies #[trigger] nb[i].dts <= nb[i + 1].dts by {
        if i + 1 < vb.len() {
            assert(nb[i] == vb[i] && nb[i + 1] == vb[i + 1]);
        } else {
            assert(nb[i] == vb[i]);
            assert(vb.last() == vb[i]);
        }
    }
    assert forall|i: int| 0 <= i < nb.len() implies #[trigger] nb[i].pts == nb[i].dts by {
        if i < vb.len() {
            assert(nb[i] == vb[i]);
        }
    }
    assert forall|i: int| 0 <= i < nb.len() implies #[trigger] nb[i].dts <= MAX_DECODE_TIME by {
        if i < vb.len() {
            assert(nb[i] == vb[i]);
        }
    }
    assert(mid.pending() == old.pending());
}

/// Appending an access unit that respects the push limits keeps the invariant.
proof fn lemma_audio_push_wf(
    old: MuxideMuxerState,
    mid: MuxideMuxerState,
    timestamp: u64,
    duration: u32,
    a: AudioSample,
)
    requires
        old.wf(),
        old.initialized,
        old.config.audio_configured(),
        old.audio_push_fits(a.data@.len(), timestamp, duration),
        a.duration == rounded_ticks_of(duration, old.config.audio_ticks_per_second()),
        mid.config == old.config,
        mid.initialized == old.initialized,
        mid.init_segment@ == old.init_segment@,
        mid.pending_segments@ == old.pending_segments@,
        mid.history@ == old.history@,
        mid.video_sequence_number == old.video_sequence_number,
        mid.video_base_media_decode_time == old.video_base_media_decode_time,
        mid.audio_base_media_decode_time == old.audio_base_media_decode_time,
        mid.video_samples@ == old.video_samples@,
        mid.video_frame_count == old.video_frame_count,
        mid.audio_frame_count == old.audio_frame_count + 1,
        mid.audio_samples@ == old.audio_samples@.push(a),
    ensures
        mid.wf(),
{
    let ab = old.audio_samples@;
    let nb = mid.audio_samples@;
    lemma_audio_prefix(ab, nb, ab.len() as int);
    assert(audio_data(nb, nb.len() as int) == audio_data(ab, ab.len() as int) + a.data@);
    assert(audio_total(nb) == audio_total(ab) + a.duration);
    assert(mid.pending() == old.pending());
}

/// Decode-time continuity: each emitted segment's video and audio `tfdt` is
/// the previous segment's `tfdt` plus the sum of the durations written in the
/// previous segment's `trun`, exactly; and the next segment will start where
/// the last one ended.
pub proof fn lemma_decode_time_continuity(m: &MuxideMuxerState, k: int)
    requires
        m.wf(),
        0 <= k,
        k + 1 < m.history().len(),
    ensures
        m.history()[k + 1].video_base == m.history()[k].video_base + video_total(m.history()[k].video),
        m.history()[k + 1].audio_base == m.history()[k].audio_base + audio_total(m.history()[k].audio),
        m.video_decode_time() == m.history().last().video_base + video_total(m.history().last().video),
        m.audio_decode_time() == m.history().last().audio_base + audio_total(m.history().last().audio),
        record_bytes(m.history()[k + 1]).subrange(60, 68) == be64(
            (m.history()[k].video_base + video_total(m.history()[k].video)) as u64,
        ),
{
    let r = m.history()[k + 1];
    lemma_segment_header_fields(r.video, r.audio, r.sequence_number, r.video_base, r.audio_base, r.audio_configured);
    assert(m.history()[k + 1].video_base == m.history()[k].video_base + video_total(m.history()[k].video));
    assert(m.history()[k + 1].audio_base == m.history()[k].audio_base + audio_total(m.history()[k].audio));
}

/// Sequence numbers: the emitted segments are numbered 1, 2, 3, ... in order,
/// so each is one above the one before.
pub proof fn lemma_sequence_numbers(m: &MuxideMuxerState, k: int)
    requires
        m.wf(),
        0 <= k < m.history().len(),
    ensures
        m.history()[k].sequence_number == k + 1,
        k > 0 ==> m.history()[k].sequence_number == m.history()[k - 1].sequence_number + 1,
        m.sequence_number() == m.history().len() + 1,
        record_bytes(m.history()[k]).subrange(20, 24) == be32((k + 1) as u32),
{
    let r = m.history()[k];
    lemma_segment_header_fields(r.video, r.audio, r.sequence_number, r.video_base, r.audio_base, r.audio_configured);
    assert(m.history()[k].sequence_number == k + 1);
    if k > 0 {
        assert(m.history()[k - 1].sequence_number == k);
    }
}

/// Every emitted segment stays within 32-bit box sizes, so the layout laws of
/// media segments (`moof` then `mdat`; run offsets pointing at the track's
/// bytes in `mdat`) hold of each of them.
pub proof fn lemma_emitted_segments_fit(m: &MuxideMuxerState, k: int)
    requires
        m.wf(),
        0 <= k < m.history().len(),
    ensures
        segment_size(m.history()[k].video, m.history()[k].audio, m.history()[k].audio_configured) <= u32::MAX,
{
    assert(segment_size(m.history@[k].video, m.history@[k].audio, m.history@[k].audio_configured) <= u32::MAX);
}

/// Every pending segment is the byte form of an emitted segment: the pending
/// ones are the latest emitted, in order.
pub proof fn lemma_pending_are_emitted(m: &MuxideMuxerState, i: int)
    requires
        m.wf(),
        0 <= i < m.pending().len(),
    ensures
        m.pending().len() <= m.history().len(),
        m.pending()[i] == record_bytes(m.history()[m.history().len() - m.pending().len() + i]),
{
    assert(m.pending_segments@[i]@ == record_bytes(m.history@[m.history@.len() - m.pending_segments@.len() + i]));
}

} // verus!
