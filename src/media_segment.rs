//! Media segments: a `moof` describing the buffered samples, then an `mdat`
//! holding their bytes, video first.
use vstd::prelude::*;
use crate::boxes::{
    be32, be64, build_box, lemma_box_parse, mp4_box, put_bytes, put_u32, put_u64, top_level_boxes, MDAT,
    MFHD, MOOF, TFDT, TFHD, TRAF, TRUN,
};

verus! {

/// A buffered video frame, in ticks of the video timescale.
pub struct VideoSample {
    pub pts: u64,
    pub dts: u64,
    /// AVCC-framed NAL units.
    pub data: Vec<u8>,
    pub is_sync: bool,
}

/// A buffered AAC access unit, in ticks of the audio timescale.
pub struct AudioSample {
    pub pts: u64,
    /// Raw AAC frame, no ADTS header.
    pub data: Vec<u8>,
    pub duration: u32,
}

/// `trun` flags of the video run: data offset, duration, size, flags and
/// composition offset present; version 1.
pub const VIDEO_TRUN_FLAGS: u32 = 0x0100_0f01;
/// `trun` flags of the audio run: data offset, duration and size present.
pub const AUDIO_TRUN_FLAGS: u32 = 0x0000_0301;
/// `tfhd` flags: default-base-is-moof.
pub const TFHD_FLAGS: u32 = 0x0002_0000;
/// Sample flags of a sync sample: depends on no other.
pub const SYNC_SAMPLE_FLAGS: u32 = 0x0200_0000;
/// Sample flags of a non-sync sample: depends on others, non-sync bit set.
pub const NON_SYNC_SAMPLE_FLAGS: u32 = 0x0101_0000;
/// Duration given to the only sample of a run: one frame at 30 fps in 90 kHz.
pub const LONE_SAMPLE_DURATION: u32 = 3000;

// ---------------------------------------------------------------------------
// Layout
// ---------------------------------------------------------------------------

/// Decode times never decrease along the buffer, and no frame is reordered.
pub open spec fn video_samples_ordered(vs: Seq<VideoSample>) -> bool {
    &&& forall|i: int| 0 <= i < vs.len() - 1 ==> #[trigger] vs[i].dts <= vs[i + 1].dts
    &&& forall|i: int| 0 <= i < vs.len() ==> #[trigger] vs[i].pts == vs[i].dts
}

/// The decode times of the buffered video samples.
pub open spec fn decode_times(vs: Seq<VideoSample>) -> Seq<u64> {
    vs.map_values(|s: VideoSample| s.dts)
}

/// The duration of frame `i` given the decode times `d`: the gap to the next
/// decode time; for the last frame the gap before it; for a lone frame 3000.
pub open spec fn frame_duration(d: Seq<u64>, i: int) -> u32 {
    if i + 1 < d.len() {
        #[verifier::truncate] ((d[i + 1] - d[i]) as u32)
    } else if i > 0 {
        #[verifier::truncate] ((d[i] - d[i - 1]) as u32)
    } else {
        LONE_SAMPLE_DURATION
    }
}

/// The sum of the durations of the first `n` frames.
pub open spec fn frame_duration_sum(d: Seq<u64>, n: int) -> int
    decreases n,
{
    if n <= 0 {
        0
    } else {
        frame_duration_sum(d, n - 1) + frame_duration(d, n - 1) as int
    }
}

/// The duration written into the video `trun` for sample `i`.
pub open spec fn video_duration(vs: Seq<VideoSample>, i: int) -> u32 {
    frame_duration(decode_times(vs), i)
}

/// The sum of the durations written into the video `trun` of `vs`.
pub open spec fn video_total(vs: Seq<VideoSample>) -> int {
    frame_duration_sum(decode_times(vs), vs.len() as int)
}

/// The sum of the durations of the first `n` audio samples.
pub open spec fn audio_duration_sum(aus: Seq<AudioSample>, n: int) -> int
    decreases n,
{
    if n <= 0 {
        0
    } else {
        audio_duration_sum(aus, n - 1) + aus[n - 1].duration as int
    }
}

/// The sum of the durations written into the audio `trun` of `aus`.
pub open spec fn audio_total(aus: Seq<AudioSample>) -> int {
    audio_duration_sum(aus, aus.len() as int)
}

/// The sample flags of a video frame.
pub open spec fn sample_flags(is_sync: bool) -> u32 {
    if is_sync { SYNC_SAMPLE_FLAGS } else { NON_SYNC_SAMPLE_FLAGS }
}

/// The `trun` entry of video sample `i`: duration, size, flags, composition offset.
pub open spec fn video_trun_entry(vs: Seq<VideoSample>, i: int) -> Seq<u8> {
    be32(video_duration(vs, i)) + be32(vs[i].data@.len() as u32) + be32(sample_flags(vs[i].is_sync))
        + be32((vs[i].pts - vs[i].dts) as u32)
}

/// The `trun` entries of the first `n` video samples.
pub open spec fn video_trun_entries(vs: Seq<VideoSample>, n: int) -> Seq<u8>
    decreases n,
{
    if n <= 0 {
        Seq::empty()
    } else {
        video_trun_entries(vs, n - 1) + video_trun_entry(vs, n - 1)
    }
}

/// The `trun` entry of audio sample `i`: duration, size.
pub open spec fn audio_trun_entry(aus: Seq<AudioSample>, i: int) -> Seq<u8> {
    be32(aus[i].duration) + be32(aus[i].data@.len() as u32)
}

/// The `trun` entries of the first `n` audio samples.
pub open spec fn audio_trun_entries(aus: Seq<AudioSample>, n: int) -> Seq<u8>
    decreases n,
{
    if n <= 0 {
        Seq::empty()
    } else {
        audio_trun_entries(aus, n - 1) + audio_trun_entry(aus, n - 1)
    }
}

/// The bytes of the first `n` video samples, in order.
pub open spec fn video_data(vs: Seq<VideoSample>, n: int) -> Seq<u8>
    decreases n,
{
    if n <= 0 {
        Seq::empty()
    } else {
        video_data(vs, n - 1) + vs[n - 1].data@
    }
}

/// The bytes of the first `n` audio samples, in order.
pub open spec fn audio_data(aus: Seq<AudioSample>, n: int) -> Seq<u8>
    decreases n,
{
    if n <= 0 {
        Seq::empty()
    } else {
        audio_data(aus, n - 1) + aus[n - 1].data@
    }
}

/// The video `trun`.
pub open spec fn video_trun_box(vs: Seq<VideoSample>, data_offset: u32) -> Seq<u8> {
    mp4_box(
        TRUN,
        be32(VIDEO_TRUN_FLAGS) + be32(vs.len() as u32) + be32(data_offset) + video_trun_entries(vs, vs.len() as int),
    )
}

/// The audio `trun`.
pub open spec fn audio_trun_box(aus: Seq<AudioSample>, data_offset: u32) -> Seq<u8> {
    mp4_box(
        TRUN,
        be32(AUDIO_TRUN_FLAGS) + be32(aus.len() as u32) + be32(data_offset) + audio_trun_entries(aus, aus.len() as int),
    )
}

/// `mfhd` with a sequence number.
pub open spec fn mfhd_box(sequence_number: u32) -> Seq<u8> {
    mp4_box(MFHD, be32(0) + be32(sequence_number))
}

/// `tfhd`: default-base-is-moof and the track id.
pub open spec fn tfhd_box(track_id: u32) -> Seq<u8> {
    mp4_box(TFHD, be32(TFHD_FLAGS) + be32(track_id))
}

/// `tfdt`, version 1: the 64-bit decode time of the run's first sample.
pub open spec fn tfdt_box(base_media_decode_time: u64) -> Seq<u8> {
    mp4_box(TFDT, be32(0x0100_0000) + be64(base_media_decode_time))
}

/// The video `traf` (track 1).
pub open spec fn video_traf_box(vs: Seq<VideoSample>, base: u64, data_offset: u32) -> Seq<u8> {
    mp4_box(TRAF, tfhd_box(1) + tfdt_box(base) + video_trun_box(vs, data_offset))
}

/// The audio `traf` (track 2).
pub open spec fn audio_traf_box(aus: Seq<AudioSample>, base: u64, data_offset: u32) -> Seq<u8> {
    mp4_box(TRAF, tfhd_box(2) + tfdt_box(base) + audio_trun_box(aus, data_offset))
}

/// A fragment has an audio run: audio is configured and samples are buffered.
pub open spec fn has_audio_run(audio_configured: bool, aus: Seq<AudioSample>) -> bool {
    audio_configured && aus.len() > 0
}

/// `moof`: `mfhd`, the video `traf`, then the audio `traf` if it has a run.
pub open spec fn moof_box(
    vs: Seq<VideoSample>,
    aus: Seq<AudioSample>,
    sequence_number: u32,
    video_base: u64,
    audio_base: u64,
    video_offset: u32,
    audio_offset: u32,
    audio_configured: bool,
) -> Seq<u8> {
    mp4_box(
        MOOF,
        mfhd_box(sequence_number) + video_traf_box(vs, video_base, video_offset) + if has_audio_run(
            audio_configured,
            aus,
        ) {
            audio_traf_box(aus, audio_base, audio_offset)
        } else {
            Seq::empty()
        },
    )
}

/// The size of a `moof` with `nv` video and `na` audio samples.
pub open spec fn moof_size(nv: nat, na: nat, audio_run: bool) -> nat {
    88 + 16 * nv + if audio_run { 64 + 8 * na } else { 0 }
}

/// The size of the media segment of these samples.
pub open spec fn segment_size(vs: Seq<VideoSample>, aus: Seq<AudioSample>, audio_configured: bool) -> nat {
    moof_size(vs.len(), aus.len(), has_audio_run(audio_configured, aus)) + 8 + video_data(vs, vs.len() as int).len()
        + audio_data(aus, aus.len() as int).len()
}

/// Where the video bytes start, counted from the start of `moof`.
pub open spec fn video_data_offset(vs: Seq<VideoSample>, aus: Seq<AudioSample>, audio_configured: bool) -> u32 {
    (moof_size(vs.len(), aus.len(), has_audio_run(audio_configured, aus)) + 8) as u32
}

/// Where the audio bytes start, counted from the start of `moof`.
pub open spec fn audio_data_offset(vs: Seq<VideoSample>, aus: Seq<AudioSample>, audio_configured: bool) -> u32 {
    (video_data_offset(vs, aus, audio_configured) + video_data(vs, vs.len() as int).len()) as u32
}

/// The media segment: `moof` whose runs point into the following `mdat`,
/// which holds every video sample's bytes, then every audio sample's.
pub open spec fn media_segment(
    vs: Seq<VideoSample>,
    aus: Seq<AudioSample>,
    sequence_number: u32,
    video_base: u64,
    audio_base: u64,
    audio_configured: bool,
) -> Seq<u8> {
    moof_box(
        vs,
        aus,
        sequence_number,
        video_base,
        audio_base,
        video_data_offset(vs, aus, audio_configured),
        audio_data_offset(vs, aus, audio_configured),
        audio_configured,
    ) + mp4_box(MDAT, video_data(vs, vs.len() as int) + audio_data(aus, aus.len() as int))
}

// ---------------------------------------------------------------------------
// Sizes
// ---------------------------------------------------------------------------

proof fn lemma_video_trun_entries_len(vs: Seq<VideoSample>, n: int)
    requires
        0 <= n,
    ensures
        video_trun_entries(vs, n).len() == 16 * n,
    decreases n,
{
    if n > 0 {
        lemma_video_trun_entries_len(vs, n - 1);
    }
}

proof fn lemma_audio_trun_entries_len(aus: Seq<AudioSample>, n: int)
    requires
        0 <= n,
    ensures
        audio_trun_entries(aus, n).len() == 8 * n,
    decreases n,
{
    if n > 0 {
        lemma_audio_trun_entries_len(aus, n - 1);
    }
}

/// The size of `moof` depends on the sample counts alone, never on the offsets.
pub proof fn lemma_moof_size(
    vs: Seq<VideoSample>,
    aus: Seq<AudioSample>,
    sequence_number: u32,
    video_base: u64,
    audio_base: u64,
    video_offset: u32,
    audio_offset: u32,
    audio_configured: bool,
)
    ensures
        moof_box(vs, aus, sequence_number, video_base, audio_base, video_offset, audio_offset, audio_configured).len()
            == moof_size(vs.len(), aus.len(), has_audio_run(audio_configured, aus)),
{
    lemma_video_trun_entries_len(vs, vs.len() as int);
    lemma_audio_trun_entries_len(aus, aus.len() as int);
}

// ---------------------------------------------------------------------------
// Builders
// ---------------------------------------------------------------------------

/// The duration of video sample `i`.
pub fn video_sample_duration(samples: &[VideoSample], i: usize) -> (r: u32)
    requires
        i < samples@.len(),
        video_samples_ordered(samples@),
    ensures
        r == video_duration(samples@, i as int),
{
    if i < samples.len() - 1 {
        #[verifier::truncate] ((samples[i + 1].dts - samples[i].dts) as u32)
    } else if i > 0 {
        #[verifier::truncate] ((samples[i].dts - samples[i - 1].dts) as u32)
    } else {
        LONE_SAMPLE_DURATION
    }
}

/// Builds `mfhd`.
pub fn build_mfhd(sequence_number: u32) -> (r: Vec<u8>)
    ensures
        r@ == mfhd_box(sequence_number),
{
    let mut payload: Vec<u8> = Vec::new();
    put_u32(&mut payload, 0);
    put_u32(&mut payload, sequence_number);
    build_box(MFHD, &payload)
}

/// Builds `tfhd`.
pub fn build_tfhd(track_id: u32) -> (r: Vec<u8>)
    ensures
        r@ == tfhd_box(track_id),
{
    let mut payload: Vec<u8> = Vec::new();
    put_u32(&mut payload, TFHD_FLAGS);
    put_u32(&mut payload, track_id);
    build_box(TFHD, &payload)
}

/// Builds `tfdt`.
pub fn build_tfdt(base_media_decode_time: u64) -> (r: Vec<u8>)
    ensures
        r@ == tfdt_box(base_media_decode_time),
{
    let mut payload: Vec<u8> = Vec::new();
    put_u32(&mut payload, 0x0100_0000);
    put_u64(&mut payload, base_media_decode_time);
    build_box(TFDT, &payload)
}

/// Builds the video `trun`.
pub fn build_video_trun(samples: &[VideoSample], data_offset: u32) -> (r: Vec<u8>)
    requires
        video_samples_ordered(samples@),
        16 * samples@.len() + 20 <= u32::MAX,
    ensures
        r@ == video_trun_box(samples@, data_offset),
{
    let mut payload: Vec<u8> = Vec::new();
    put_u32(&mut payload, VIDEO_TRUN_FLAGS);
    put_u32(&mut payload, samples.len() as u32);
    put_u32(&mut payload, data_offset);
    let ghost head = payload@;
    let mut i: usize = 0;
    while i < samples.len()
        invariant
            i <= samples@.len(),
            video_samples_ordered(samples@),
            head.len() == 12,
            payload@ == head + video_trun_entries(samples@, i as int),
        decreases samples@.len() - i,
    {
        let ghost prev = payload@;
        let sample = &samples[i];
        put_u32(&mut payload, video_sample_duration(samples, i));
        put_u32(&mut payload, sample.data.len() as u32);
        let flags = if sample.is_sync { SYNC_SAMPLE_FLAGS } else { NON_SYNC_SAMPLE_FLAGS };
        put_u32(&mut payload, flags);
        put_u32(&mut payload, (sample.pts - sample.dts) as u32);
        assert(payload@ =~= prev + video_trun_entry(samples@, i as int));
        i = i + 1;
    }
    proof {
        lemma_video_trun_entries_len(samples@, samples@.len() as int);
    }
    build_box(TRUN, &payload)
}

/// Builds the audio `trun`.
pub fn build_audio_trun(samples: &[AudioSample], data_offset: u32) -> (r: Vec<u8>)
    requires
        8 * samples@.len() + 20 <= u32::MAX,
    ensures
        r@ == audio_trun_box(samples@, data_offset),
{
    let mut payload: Vec<u8> = Vec::new();
    put_u32(&mut payload, AUDIO_TRUN_FLAGS);
    put_u32(&mut payload, samples.len() as u32);
    put_u32(&mut payload, data_offset);
    let ghost head = payload@;
    let mut i: usize = 0;
    while i < samples.len()
        invariant
            i <= samples@.len(),
            head.len() == 12,
            payload@ == head + audio_trun_entries(samples@, i as int),
        decreases samples@.len() - i,
    {
        let ghost prev = payload@;
        put_u32(&mut payload, samples[i].duration);
        put_u32(&mut payload, samples[i].data.len() as u32);
        assert(payload@ =~= prev + audio_trun_entry(samples@, i as int));
        i = i + 1;
    }
    proof {
        lemma_audio_trun_entries_len(samples@, samples@.len() as int);
    }
    build_box(TRUN, &payload)
}

/// Builds the video `traf`.
pub fn build_video_traf(samples: &[VideoSample], base_media_decode_time: u64, data_offset: u32) -> (r: Vec<u8>)
    requires
        video_samples_ordered(samples@),
        16 * samples@.len() + 64 <= u32::MAX,
    ensures
        r@ == video_traf_box(samples@, base_media_decode_time, data_offset),
{
    let mut payload: Vec<u8> = Vec::new();
    let tfhd = build_tfhd(1);
    put_bytes(&mut payload, &tfhd);
    let tfdt = build_tfdt(base_media_decode_time);
    put_bytes(&mut payload, &tfdt);
    let trun = build_video_trun(samples, data_offset);
    put_bytes(&mut payload, &trun);
    proof {
        lemma_video_trun_entries_len(samples@, samples@.len() as int);
    }
    assert(payload@ =~= tfhd@ + tfdt@ + trun@);
    build_box(TRAF, &payload)
}

/// Builds the audio `traf`.
pub fn build_audio_traf(samples: &[AudioSample], base_media_decode_time: u64, data_offset: u32) -> (r: Vec<u8>)
    requires
        8 * samples@.len() + 64 <= u32::MAX,
    ensures
        r@ == audio_traf_box(samples@, base_media_decode_time, data_offset),
{
    let mut payload: Vec<u8> = Vec::new();
    let tfhd = build_tfhd(2);
    put_bytes(&mut payload, &tfhd);
    let tfdt = build_tfdt(base_media_decode_time);
    put_bytes(&mut payload, &tfdt);
    let trun = build_audio_trun(samples, data_offset);
    put_bytes(&mut payload, &trun);
    proof {
        lemma_audio_trun_entries_len(samples@, samples@.len() as int);
    }
    assert(payload@ =~= tfhd@ + tfdt@ + trun@);
    build_box(TRAF, &payload)
}

/// Builds `moof` with the given data offsets.
pub fn build_moof_av(
    video_samples: &[VideoSample],
    audio_samples: &[AudioSample],
    sequence_number: u32,
    video_base_decode_time: u64,
    audio_base_decode_time: u64,
    video_data_offset: u32,
    audio_data_offset: u32,
    has_audio: bool,
) -> (r: Vec<u8>)
    requires
        video_samples_ordered(video_samples@),
        moof_size(video_samples@.len(), audio_samples@.len(), has_audio_run(has_audio, audio_samples@)) <= u32::MAX,
    ensures
        r@ == moof_box(
            video_samples@,
            audio_samples@,
            sequence_number,
            video_base_decode_time,
            audio_base_decode_time,
            video_data_offset,
            audio_data_offset,
            has_audio,
        ),
{
    let mut payload: Vec<u8> = Vec::new();
    let mfhd = build_mfhd(sequence_number);
    put_bytes(&mut payload, &mfhd);
    let video_traf = build_video_traf(video_samples, video_base_decode_time, video_data_offset);
    put_bytes(&mut payload, &video_traf);
    proof {
        lemma_video_trun_entries_len(video_samples@, video_samples@.len() as int);
        lemma_audio_trun_entries_len(audio_samples@, audio_samples@.len() as int);
    }
    let ghost base = mfhd@ + video_traf@;
    assert(payload@ =~= base);
    if has_audio && audio_samples.len() > 0 {
        let audio_traf = build_audio_traf(audio_samples, audio_base_decode_time, audio_data_offset);
        put_bytes(&mut payload, &audio_traf);
        assert(payload@ =~= base + audio_traf@);
    }
    build_box(MOOF, &payload)
}

/// Total length of the video samples' bytes.
fn video_bytes_len(samples: &[VideoSample]) -> (r: usize)
    requires
        video_data(samples@, samples@.len() as int).len() <= u32::MAX,
    ensures
        r == video_data(samples@, samples@.len() as int).len(),
{
    let mut total: usize = 0;
    let mut i: usize = 0;
    while i < samples.len()
        invariant
            i <= samples@.len(),
            total == video_data(samples@, i as int).len(),
            video_data(samples@, samples@.len() as int).len() <= u32::MAX,
        decreases samples@.len() - i,
    {
        proof {
            lemma_video_data_prefix_len(samples@, i as int + 1, samples@.len() as int);
        }
        total = total + samples[i].data.len();
        i = i + 1;
    }
    total
}

/// Total length of the audio samples' bytes.
fn audio_bytes_len(samples: &[AudioSample]) -> (r: usize)
    requires
        audio_data(samples@, samples@.len() as int).len() <= u32::MAX,
    ensures
        r == audio_data(samples@, samples@.len() as int).len(),
{
    let mut total: usize = 0;
    let mut i: usize = 0;
    while i < samples.len()
        invariant
            i <= samples@.len(),
            total == audio_data(samples@, i as int).len(),
            audio_data(samples@, samples@.len() as int).len() <= u32::MAX,
        decreases samples@.len() - i,
    {
        proof {
            lemma_audio_data_prefix_len(samples@, i as int + 1, samples@.len() as int);
        }
        total = total + samples[i].data.len();
        i = i + 1;
    }
    total
}

proof fn lemma_video_data_prefix_len(vs: Seq<VideoSample>, m: int, n: int)
    requires
        0 <= m <= n,
    ensures
        video_data(vs, m).len() <= video_data(vs, n).len(),
    decreases n - m,
{
    if m < n {
        lemma_video_data_prefix_len(vs, m, n - 1);
    }
}

proof fn lemma_audio_data_prefix_len(aus: Seq<AudioSample>, m: int, n: int)
    requires
        0 <= m <= n,
    ensures
        audio_data(aus, m).len() <= audio_data(aus, n).len(),
    decreases n - m,
{
    if m < n {
        lemma_audio_data_prefix_len(aus, m, n - 1);
    }
}

/// Builds the media segment of the buffered samples: `moof` built once with
/// placeholder offsets to learn its size, then again with the real offsets,
/// followed by `mdat`.
#[verifier::spinoff_prover]
#[verifier::rlimit(60)]
pub fn build_media_segment_av(
    video_samples: &[VideoSample],
    audio_samples: &[AudioSample],
    sequence_number: u32,
    video_base_decode_time: u64,
    audio_base_decode_time: u64,
    audio_configured: bool,
) -> (r: Vec<u8>)
    requires
        video_samples_ordered(video_samples@),
        segment_size(video_samples@, audio_samples@, audio_configured) <= u32::MAX,
    ensures
        r@ == media_segment(
            video_samples@,
            audio_samples@,
            sequence_number,
            video_base_decode_time,
            audio_base_decode_time,
            audio_configured,
        ),
{
    let has_audio = audio_configured && audio_samples.len() > 0;
    let video_data_size = video_bytes_len(video_samples);
    let audio_data_size = audio_bytes_len(audio_samples);
    let mdat_payload_size = video_data_size + audio_data_size;
    let moof_placeholder = build_moof_av(
        video_samples,
        audio_samples,
        sequence_number,
        video_base_decode_time,
        audio_base_decode_time,
        0,
        0,
        has_audio,
    );
    proof {
        lemma_moof_size(
            video_samples@,
            audio_samples@,
            sequence_number,
            video_base_decode_time,
            audio_base_decode_time,
            0,
            0,
            has_audio,
        );
    }
    let moof_size = moof_placeholder.len() as u32;
    let video_data_offset = moof_size + 8;
    let audio_data_offset = video_data_offset + video_data_size as u32;
    let moof = build_moof_av(
        video_samples,
        audio_samples,
        sequence_number,
        video_base_decode_time,
        audio_base_decode_time,
        video_data_offset,
        audio_data_offset,
        has_audio,
    );
    let mut segment: Vec<u8> = Vec::new();
    put_bytes(&mut segment, &moof);
    put_u32(&mut segment, (8 + mdat_payload_size) as u32);
    put_u32(&mut segment, MDAT);
    let ghost head = segment@;
    let mut i: usize = 0;
    while i < video_samples.len()
        invariant
            i <= video_samples@.len(),
            segment@ == head + video_data(video_samples@, i as int),
        decreases video_samples@.len() - i,
    {
        put_bytes(&mut segment, video_samples[i].data.as_slice());
        i = i + 1;
    }
    let ghost mid = segment@;
    let mut j: usize = 0;
    while j < audio_samples.len()
        invariant
            j <= audio_samples@.len(),
            segment@ == mid + audio_data(audio_samples@, j as int),
        decreases audio_samples@.len() - j,
    {
        put_bytes(&mut segment, audio_samples[j].data.as_slice());
        j = j + 1;
    }
    assert(segment@ =~= moof@ + mp4_box(
        MDAT,
        video_data(video_samples@, video_samples@.len() as int) + audio_data(audio_samples@, audio_samples@.len() as int),
    ));
    segment
}

// ---------------------------------------------------------------------------
// Laws
// ---------------------------------------------------------------------------

/// A media segment is exactly two top-level boxes, `moof` then `mdat`, whose
/// sizes add up to the segment's length.
pub proof fn lemma_segment_is_moof_then_mdat(
    vs: Seq<VideoSample>,
    aus: Seq<AudioSample>,
    sequence_number: u32,
    video_base: u64,
    audio_base: u64,
    audio_configured: bool,
)
    requires
        segment_size(vs, aus, audio_configured) <= u32::MAX,
    ensures
        ({
            let seg = media_segment(vs, aus, sequence_number, video_base, audio_base, audio_configured);
            let moof_len = moof_size(vs.len(), aus.len(), has_audio_run(audio_configured, aus));
            let mdat_len = seg.len() - moof_len;
            &&& top_level_boxes(seg) == Some(seq![(MOOF, moof_len), (MDAT, mdat_len as nat)])
            &&& moof_len + mdat_len == seg.len()
        }),
{
    let vo = video_data_offset(vs, aus, audio_configured);
    let ao = audio_data_offset(vs, aus, audio_configured);
    let wa = has_audio_run(audio_configured, aus);
    lemma_moof_size(vs, aus, sequence_number, video_base, audio_base, vo, ao, audio_configured);
    let moof = moof_box(vs, aus, sequence_number, video_base, audio_base, vo, ao, audio_configured);
    let payload = video_data(vs, vs.len() as int) + audio_data(aus, aus.len() as int);
    let mdat = mp4_box(MDAT, payload);
    let moof_payload = moof.subrange(8, moof.len() as int);
    assert(moof == mp4_box(MOOF, moof_payload)) by {
        assert(moof =~= mp4_box(MOOF, moof_payload));
    }
    lemma_box_parse(MDAT, payload, Seq::empty());
    assert(mdat + Seq::<u8>::empty() =~= mdat);
    assert(top_level_boxes(Seq::<u8>::empty()) == Some(Seq::<(u32, nat)>::empty()));
    lemma_box_parse(MOOF, moof_payload, mdat);
    assert(seq![(MOOF, moof_size(vs.len(), aus.len(), wa))] + (seq![(MDAT, (payload.len() + 8) as nat)]
        + Seq::<(u32, nat)>::empty()) =~= seq![(MOOF, moof_size(vs.len(), aus.len(), wa)), (MDAT, (payload.len() + 8) as nat)]);
}

/// Each run's `data_offset` is the distance from the start of `moof` to that
/// track's first byte in the `mdat` payload: the video bytes stand at the
/// video offset and the audio bytes right after them.
pub proof fn lemma_data_offsets_point_into_mdat(
    vs: Seq<VideoSample>,
    aus: Seq<AudioSample>,
    sequence_number: u32,
    video_base: u64,
    audio_base: u64,
    audio_configured: bool,
)
    requires
        segment_size(vs, aus, audio_configured) <= u32::MAX,
    ensures
        ({
            let seg = media_segment(vs, aus, sequence_number, video_base, audio_base, audio_configured);
            let vo = video_data_offset(vs, aus, audio_configured) as int;
            let ao = audio_data_offset(vs, aus, audio_configured) as int;
            let vd = video_data(vs, vs.len() as int);
            let ad = audio_data(aus, aus.len() as int);
            &&& seg == moof_box(vs, aus, sequence_number, video_base, audio_base, vo as u32, ao as u32, audio_configured)
                + be32((vd.len() + ad.len() + 8) as u32) + be32(MDAT) + vd + ad
            &&& vo == moof_size(vs.len(), aus.len(), has_audio_run(audio_configured, aus)) + 8
            &&& ao == vo + vd.len()
            &&& seg.subrange(vo, vo + vd.len()) == vd
            &&& seg.subrange(ao, ao + ad.len()) == ad
        }),
{
    let vo = video_data_offset(vs, aus, audio_configured);
    let ao = audio_data_offset(vs, aus, audio_configured);
    lemma_moof_size(vs, aus, sequence_number, video_base, audio_base, vo, ao, audio_configured);
    let seg = media_segment(vs, aus, sequence_number, video_base, audio_base, audio_configured);
    let moof = moof_box(vs, aus, sequence_number, video_base, audio_base, vo, ao, audio_configured);
    let vd = video_data(vs, vs.len() as int);
    let ad = audio_data(aus, aus.len() as int);
    assert(seg =~= moof + be32((vd.len() + ad.len() + 8) as u32) + be32(MDAT) + vd + ad);
    assert(seg.subrange(vo as int, vo + vd.len()) =~= vd);
    assert(seg.subrange(ao as int, ao + ad.len()) =~= ad);
}

/// The header fields of a media segment stand at fixed offsets: the
/// `mfhd` sequence number at byte 20, the video `tfdt` at byte 60 and, when
/// there is an audio run, the audio `tfdt` 16 bytes further per video sample
/// after byte 124.
pub proof fn lemma_segment_header_fields(
    vs: Seq<VideoSample>,
    aus: Seq<AudioSample>,
    sequence_number: u32,
    video_base: u64,
    audio_base: u64,
    audio_configured: bool,
)
    ensures
        ({
            let seg = media_segment(vs, aus, sequence_number, video_base, audio_base, audio_configured);
            let a = 124 + 16 * vs.len() as int;
            &&& seg.subrange(20, 24) == be32(sequence_number)
            &&& seg.subrange(60, 68) == be64(video_base)
            &&& has_audio_run(audio_configured, aus) ==> seg.subrange(a, a + 8) == be64(audio_base)
        }),
{
    let vo = video_data_offset(vs, aus, audio_configured);
    let ao = audio_data_offset(vs, aus, audio_configured);
    let seg = media_segment(vs, aus, sequence_number, video_base, audio_base, audio_configured);
    lemma_video_trun_entries_len(vs, vs.len() as int);
    lemma_audio_trun_entries_len(aus, aus.len() as int);
    let vtraf = video_traf_box(vs, video_base, vo);
    let head = be32(0) + be32(MOOF) + mfhd_box(sequence_number);
    let tail = if has_audio_run(audio_configured, aus) {
        audio_traf_box(aus, audio_base, ao)
    } else {
        Seq::empty()
    };
    let moof = moof_box(vs, aus, sequence_number, video_base, audio_base, vo, ao, audio_configured);
    assert(moof.subrange(8, moof.len() as int) =~= mfhd_box(sequence_number) + vtraf + tail);
    assert(seg.subrange(0, moof.len() as int) =~= moof);
    assert(moof.subrange(20, 24) =~= be32(sequence_number));
    assert(vtraf.subrange(36, 44) =~= be64(video_base));
    assert(moof.subrange(24, 24 + vtraf.len() as int) =~= vtraf);
    assert(seg.subrange(20, 24) =~= moof.subrange(20, 24));
    assert(seg.subrange(60, 68) =~= vtraf.subrange(36, 44));
    if has_audio_run(audio_configured, aus) {
        let a = 124 + 16 * vs.len() as int;
        let atraf = audio_traf_box(aus, audio_base, ao);
        assert(vtraf.len() == 64 + 16 * vs.len());
        assert(atraf.subrange(36, 44) =~= be64(audio_base));
        assert(moof.subrange(24 + vtraf.len() as int, 24 + vtraf.len() as int + atraf.len() as int) =~= atraf);
        assert(seg.subrange(a, a + 8) =~= atraf.subrange(36, 44));
    }
}

} // verus!
