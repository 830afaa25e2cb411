use fmp4_muxer::init_segment::{build_descriptor, encode_language_code};
use fmp4_muxer::{
    annex_b_to_avcc, build_audio_specific_config, extract_sps_pps_from_avcc, ChunkId, ChunkMetadata, MuxerConfig,
    MuxerState, MuxideConfig, MuxideMuxerState, SessionId, SessionState,
};

fn sps() -> Vec<u8> {
    vec![0x67, 0x42, 0xC0, 0x1E, 0xD9, 0x00, 0x50, 0x05, 0xBA, 0x10]
}

fn pps() -> Vec<u8> {
    vec![0x68, 0xCE, 0x3C, 0x80]
}

fn video_config() -> MuxideConfig {
    MuxideConfig { sps: sps(), pps: pps(), ..Default::default() }
}

fn av_config() -> MuxideConfig {
    MuxideConfig { audio_sample_rate: Some(48000), audio_channels: Some(2), ..video_config() }
}

fn be32_at(b: &[u8], i: usize) -> u32 {
    u32::from_be_bytes([b[i], b[i + 1], b[i + 2], b[i + 3]])
}

fn be64_at(b: &[u8], i: usize) -> u64 {
    ((be32_at(b, i) as u64) << 32) | be32_at(b, i + 4) as u64
}

/// (type, start, size) of each box in `b[start..end]`.
fn boxes(b: &[u8], start: usize, end: usize) -> Vec<([u8; 4], usize, usize)> {
    let mut out = Vec::new();
    let mut i = start;
    while i < end {
        let size = be32_at(b, i) as usize;
        assert!(size >= 8 && i + size <= end, "malformed box at {}", i);
        out.push(([b[i + 4], b[i + 5], b[i + 6], b[i + 7]], i, size));
        i += size;
    }
    out
}

fn child(b: &[u8], parent: (usize, usize), tag: &[u8; 4]) -> Vec<(usize, usize)> {
    boxes(b, parent.0 + 8, parent.0 + parent.1)
        .into_iter()
        .filter(|(t, _, _)| t == tag)
        .map(|(_, s, n)| (s, n))
        .collect()
}

fn count_tag(b: &[u8], tag: &[u8; 4]) -> usize {
    b.windows(4).filter(|w| w == tag).count()
}

struct Run {
    tfdt: u64,
    count: u32,
    data_offset: u32,
    entries: Vec<Vec<u32>>,
}

/// The runs of a media segment's `moof`, video first.
fn runs(seg: &[u8]) -> (u32, Vec<Run>) {
    let top = boxes(seg, 0, seg.len());
    let moof = (top[0].1, top[0].2);
    let mfhd = child(seg, moof, b"mfhd")[0];
    let seq_no = be32_at(seg, mfhd.0 + 12);
    let mut out = Vec::new();
    for traf in child(seg, moof, b"traf") {
        let tfdt = child(seg, traf, b"tfdt")[0];
        let trun = child(seg, traf, b"trun")[0];
        let flags = be32_at(seg, trun.0 + 8) & 0xffffff;
        let per = if flags == 0xf01 { 4 } else { 2 };
        let count = be32_at(seg, trun.0 + 12);
        let mut entries = Vec::new();
        for k in 0..count as usize {
            let base = trun.0 + 20 + k * per * 4;
            entries.push((0..per).map(|f| be32_at(seg, base + 4 * f)).collect());
        }
        out.push(Run { tfdt: be64_at(seg, tfdt.0 + 12), count, data_offset: be32_at(seg, trun.0 + 16), entries });
    }
    (seq_no, out)
}

fn frame(is_key: bool) -> Vec<u8> {
    let mut v = vec![0x00, 0x00, 0x00, 0x09, if is_key { 0x65 } else { 0x41 }];
    v.extend_from_slice(&[0u8; 8]);
    v
}

#[test]
fn single_keyframe_file_layout() {
    let mut m = MuxideMuxerState::new(MuxideConfig {
        video_width: 1280,
        video_height: 720,
        video_timescale: 90000,
        fragment_duration_ms: 2000,
        ..video_config()
    });
    m.init().unwrap();
    let init = m.get_init_segment().unwrap();
    m.push_video_chunk(&[0x00, 0x00, 0x00, 0x09, 0x65, 0, 0, 0, 0, 0, 0, 0, 0], 0, true).unwrap();
    m.force_flush().unwrap();
    let file = m.get_complete_file().unwrap();
    assert_eq!(&file[4..8], b"ftyp");
    assert_eq!(count_tag(&init, b"avc1"), 1);
    assert_eq!(count_tag(&init, b"avcC"), 1);
    assert_eq!(&file[..init.len()], &init[..]);
    let seg = &file[init.len()..];
    let top = boxes(seg, 0, seg.len());
    assert_eq!(top.len(), 2);
    let (seq_no, rs) = runs(seg);
    assert_eq!(seq_no, 1);
    assert_eq!(rs.len(), 1);
    assert_eq!(rs[0].tfdt, 0);
    assert_eq!(rs[0].count, 1);
    assert_eq!(rs[0].entries[0], vec![3000, 13, 0x0200_0000, 0]);
    assert_eq!(be32_at(seg, 20), 1);
    assert_eq!(be64_at(seg, 60), 0);
    assert_eq!(be32_at(seg, 68 + 8) & 0xffffff, 0x000f01);
    assert_eq!(seg[68 + 8], 1);
    assert!(!m.has_pending_segments());
}

#[test]
fn init_segment_box_tree() {
    let mut m = MuxideMuxerState::new(video_config());
    m.init().unwrap();
    let init = m.get_init_segment().unwrap();
    let top = boxes(&init, 0, init.len());
    assert_eq!(top.len(), 2);
    assert_eq!(&top[0].0, b"ftyp");
    assert_eq!(&init[8..28], b"iso5\0\0\0\0iso5iso6mp41");
    assert_eq!(&top[1].0, b"moov");
    let moov = (top[1].1, top[1].2);
    let kids: Vec<[u8; 4]> = boxes(&init, moov.0 + 8, moov.0 + moov.1).into_iter().map(|b| b.0).collect();
    assert_eq!(kids, vec![*b"mvhd", *b"mvex", *b"trak"]);
    let mvhd = child(&init, moov, b"mvhd")[0];
    assert_eq!(be32_at(&init, mvhd.0 + 20), 90000);
    assert_eq!(be32_at(&init, mvhd.0 + mvhd.1 - 4), 2);
    let mdhd_pos = init.windows(4).position(|w| w == b"mdhd").unwrap() - 4;
    assert_eq!(&init[mdhd_pos + 28..mdhd_pos + 30], &[0x55, 0xc4]);
    let avcc_pos = init.windows(4).position(|w| w == b"avcC").unwrap() - 4;
    let avcc_len = be32_at(&init, avcc_pos) as usize;
    let record = &init[avcc_pos + 8..avcc_pos + avcc_len];
    assert_eq!(&record[..8], &[1, 0x42, 0xC0, 0x1E, 0xff, 0xe1, 0x00, 10]);
    assert_eq!(extract_sps_pps_from_avcc(record).unwrap(), (sps(), pps()));
}

#[test]
fn init_segment_with_audio_tracks() {
    let mut m = MuxideMuxerState::new(av_config());
    m.init().unwrap();
    let init = m.get_init_segment().unwrap();
    let moov = boxes(&init, 0, init.len())[1];
    let moov = (moov.1, moov.2);
    assert_eq!(child(&init, moov, b"trak").len(), 2);
    let mvex = child(&init, moov, b"mvex")[0];
    assert_eq!(child(&init, mvex, b"trex").len(), 2);
    let mvhd = child(&init, moov, b"mvhd")[0];
    assert_eq!(be32_at(&init, mvhd.0 + mvhd.1 - 4), 3);
    let esds_pos = init.windows(4).position(|w| w == b"esds").unwrap() - 4;
    let esds = &init[esds_pos..];
    assert_eq!(esds[12], 0x03);
    let dsi = esds.windows(2).position(|w| w == [0x05, 0x02]).unwrap();
    assert_eq!(&esds[dsi + 2..dsi + 4], &[0x11, 0x90]);
    assert!(esds.windows(3).any(|w| w == [0x06, 0x01, 0x02]));
    assert!(esds.windows(2).any(|w| w == [0x40, 0x15]));
}

#[test]
fn thirty_frames_one_segment() {
    let mut m = MuxideMuxerState::new(video_config());
    m.init().unwrap();
    for i in 0..30u64 {
        m.push_video_chunk(&frame(i == 0), i * 33333, i == 0).unwrap();
    }
    assert!(!m.has_pending_segments());
    m.force_flush().unwrap();
    m.push_video_chunk(&frame(false), 30 * 33333, false).unwrap();
    m.force_flush().unwrap();
    let segs = m.get_pending_segments();
    assert_eq!(segs.len(), 2);
    let (s0, r0) = runs(&segs[0]);
    let (s1, r1) = runs(&segs[1]);
    assert_eq!((s0, s1), (1, 2));
    assert_eq!(r0[0].count, 30);
    assert_eq!(r0[0].entries[0][2], 0x0200_0000);
    for e in &r0[0].entries[1..] {
        assert_eq!(e[2], 0x0101_0000);
    }
    let durations: Vec<u32> = r0[0].entries.iter().map(|e| e[0]).collect();
    assert_eq!(durations[0], 2999);
    assert_eq!(durations[29], 3000);
    let total: u64 = durations.iter().map(|d| *d as u64).sum();
    assert_eq!(total, 89999);
    assert_eq!(r1[0].tfdt, total);
}

#[test]
fn audio_durations_round_to_nearest_tick() {
    let mut m = MuxideMuxerState::new(av_config());
    m.init().unwrap();
    for i in 0..30u64 {
        m.push_video_chunk(&frame(i == 0), i * 33333, i == 0).unwrap();
        for j in 0..3u64 {
            m.push_audio_chunk(&[0x21, 0x10, 0x04], (i * 3 + j) * 21333, 21333).unwrap();
        }
    }
    m.force_flush().unwrap();
    m.push_video_chunk(&frame(true), 30 * 33333, true).unwrap();
    m.push_audio_chunk(&[0x21], 90 * 21333, 21333).unwrap();
    m.force_flush().unwrap();
    let segs = m.get_pending_segments();
    let (_, r0) = runs(&segs[0]);
    let (_, r1) = runs(&segs[1]);
    assert_eq!(r0.len(), 2);
    assert_eq!(r0[1].count, 90);
    assert!(r0[1].entries.iter().all(|e| e[0] == 1024 && e[1] == 3));
    assert_eq!(r0[1].tfdt, 0);
    assert_eq!(r1[1].tfdt, 92160);
    assert_eq!(m.audio_frame_count, 91);
    assert_eq!(m.video_frame_count, 31);
}

#[test]
fn segments_are_moof_then_mdat_with_offsets_into_mdat() {
    let mut m = MuxideMuxerState::new(av_config());
    m.init().unwrap();
    m.push_video_chunk(&[1, 2, 3], 0, true).unwrap();
    m.push_video_chunk(&[4, 5], 33333, false).unwrap();
    m.push_audio_chunk(&[9, 8, 7, 6], 0, 21333).unwrap();
    m.force_flush().unwrap();
    let seg = m.get_pending_segments().remove(0);
    let top = boxes(&seg, 0, seg.len());
    assert_eq!(top.len(), 2);
    assert_eq!(&top[0].0, b"moof");
    assert_eq!(&top[1].0, b"mdat");
    assert_eq!(top[0].2 + top[1].2, seg.len());
    let (_, rs) = runs(&seg);
    let v = rs[0].data_offset as usize;
    let a = rs[1].data_offset as usize;
    assert_eq!(v, top[0].2 + 8);
    assert_eq!(&seg[v..v + 5], &[1, 2, 3, 4, 5]);
    assert_eq!(a, v + 5);
    assert_eq!(&seg[a..], &[9, 8, 7, 6]);
}

#[test]
fn auto_flush_keeps_decode_time_continuous() {
    let mut m = MuxideMuxerState::new(video_config());
    m.init().unwrap();
    let mut segs: Vec<Vec<u8>> = Vec::new();
    let mut i = 0u64;
    while segs.len() < 2 {
        m.push_video_chunk(&frame(i % 30 == 0), i * 33333, i % 30 == 0).unwrap();
        if m.has_pending_segments() {
            segs.extend(m.get_pending_segments());
        }
        i += 1;
    }
    let (s0, r0) = runs(&segs[0]);
    let (s1, r1) = runs(&segs[1]);
    assert_eq!((s0, s1), (1, 2));
    assert_eq!(r0[0].count, 62);
    let sum: u64 = r0[0].entries.iter().map(|e| e[0] as u64).sum();
    assert_eq!(r0[0].tfdt, 0);
    assert_eq!(r1[0].tfdt, sum);
}

#[test]
fn lifecycle_errors() {
    let mut m = MuxideMuxerState::new(video_config());
    assert_eq!(m.push_video_chunk(&[1], 0, true).unwrap_err(), "Muxer not initialized");
    assert_eq!(m.push_audio_chunk(&[1], 0, 1).unwrap_err(), "Muxer not initialized");
    assert_eq!(m.force_flush().unwrap_err(), "Muxer not initialized");
    assert_eq!(m.get_init_segment().unwrap_err(), "Muxer not initialized");
    assert_eq!(m.get_complete_file().unwrap_err(), "Muxer not initialized");
    m.init().unwrap();
    assert_eq!(m.init().unwrap_err(), "Muxer already initialized");

    let mut no_pps = MuxideMuxerState::new(MuxideConfig { pps: Vec::new(), ..video_config() });
    assert_eq!(no_pps.init().unwrap_err(), "SPS and PPS are required for initialization");
    assert!(no_pps.get_init_segment().is_err());

    let mut old = MuxerState::new(MuxerConfig::default());
    assert_eq!(old.push_video_chunk(&[1], 0, true).unwrap_err(), "Muxer not initialized");
    old.init().unwrap();
    assert_eq!(old.init().unwrap_err(), "Muxer already initialized");
}

#[test]
fn force_flush_with_nothing_buffered_emits_nothing() {
    let mut m = MuxideMuxerState::new(av_config());
    m.init().unwrap();
    m.force_flush().unwrap();
    assert!(!m.has_pending_segments());
    let file = m.get_complete_file().unwrap();
    assert_eq!(file, m.get_init_segment().unwrap());
}

#[test]
fn avcc_parse_faults() {
    let e = |b: &[u8]| extract_sps_pps_from_avcc(b).unwrap_err();
    assert_eq!(e(&[0x01, 0x42, 0xC0, 0x1E, 0xFF, 0xE1, 0x00]), "avcC truncated at SPS length");
    assert_eq!(e(&[1, 2, 3, 4, 5, 6]), "avcC too short");
    assert_eq!(e(&[2, 0x42, 0xC0, 0x1E, 0xFF, 0xE1, 0x00, 0x00]), "Invalid avcC version: 2");
    assert_eq!(e(&[123, 0, 0, 0, 0, 0, 0, 0]), "Invalid avcC version: 123");
    assert_eq!(e(&[1, 0x42, 0xC0, 0x1E, 0xFF, 0xE0, 0x00, 0x00]), "No SPS found in avcC");
    assert_eq!(e(&[1, 0x42, 0xC0, 0x1E, 0xFF, 0xE1, 0x00, 0x03, 0x67]), "avcC truncated at SPS data");
    assert_eq!(e(&[1, 0x42, 0xC0, 0x1E, 0xFF, 0xE2, 0x00, 0x01, 0x67]), "avcC truncated at additional SPS");
    assert_eq!(e(&[1, 0x42, 0xC0, 0x1E, 0xFF, 0xE1, 0x00, 0x01, 0x67]), "avcC truncated at PPS count");
    assert_eq!(e(&[1, 0x42, 0xC0, 0x1E, 0xFF, 0xE1, 0x00, 0x01, 0x67, 0x00]), "No PPS found in avcC");
    assert_eq!(e(&[1, 0x42, 0xC0, 0x1E, 0xFF, 0xE1, 0x00, 0x01, 0x67, 0x01, 0x00]), "avcC truncated at PPS length");
    assert_eq!(
        e(&[1, 0x42, 0xC0, 0x1E, 0xFF, 0xE1, 0x00, 0x01, 0x67, 0x01, 0x00, 0x02, 0x68]),
        "avcC truncated at PPS data"
    );
    assert_eq!(
        e(&[1, 0x42, 0xC0, 0x1E, 0xFF, 0xE2, 0x00, 0x01, 0x67, 0x00, 0x09, 0x00]),
        "avcC truncated at PPS count"
    );
}

#[test]
fn avcc_keeps_first_sps_and_pps() {
    let record = [
        1, 0x42, 0xC0, 0x1E, 0xFF, 0xE2, 0x00, 0x02, 0x67, 0xAA, 0x00, 0x01, 0x67, 0x02, 0x00, 0x01, 0x68, 0x00,
        0x01, 0x69,
    ];
    assert_eq!(extract_sps_pps_from_avcc(&record).unwrap(), (vec![0x67, 0xAA], vec![0x68]));
}

#[test]
fn annex_b_exact_conversion() {
    let input = [0x00, 0x00, 0x00, 0x01, 0x67, 0x42, 0xC0, 0x1E, 0x00, 0x00, 0x00, 0x01, 0x68, 0xCE, 0x3C, 0x80];
    assert_eq!(
        annex_b_to_avcc(&input),
        vec![0x00, 0x00, 0x00, 0x04, 0x67, 0x42, 0xC0, 0x1E, 0x00, 0x00, 0x00, 0x04, 0x68, 0xCE, 0x3C, 0x80]
    );
}

#[test]
fn annex_b_three_byte_codes_and_trailing_zeros() {
    let input = [0x00, 0x00, 0x01, 0x65, 0xAA, 0x00, 0x00, 0x00, 0x00, 0x01, 0x41, 0xBB];
    assert_eq!(annex_b_to_avcc(&input), vec![0, 0, 0, 2, 0x65, 0xAA, 0, 0, 0, 2, 0x41, 0xBB]);
    assert_eq!(annex_b_to_avcc(&[0x65, 0x88, 0x01]), Vec::<u8>::new());
    assert_eq!(annex_b_to_avcc(&[]), Vec::<u8>::new());
    assert_eq!(annex_b_to_avcc(&[0, 0, 1, 0, 0, 1, 0x09]), vec![0, 0, 0, 1, 0x09]);
}

#[test]
fn annex_b_round_trip_on_canonical_units() {
    let nals: Vec<Vec<u8>> = vec![vec![0x67, 0x42, 0x00, 0x1E], vec![0x68, 0xCE], vec![0x65, 0x00, 0x00, 0x03, 0x01]];
    let mut avcc = Vec::new();
    let mut annex_b = Vec::new();
    for n in &nals {
        avcc.extend_from_slice(&(n.len() as u32).to_be_bytes());
        avcc.extend_from_slice(n);
        annex_b.extend_from_slice(&[0, 0, 0, 1]);
        annex_b.extend_from_slice(n);
    }
    assert_eq!(annex_b_to_avcc(&annex_b), avcc);
}

#[test]
fn audio_specific_config_fields_decode() {
    for (rate, idx) in [(96000u32, 0u8), (44100, 4), (8000, 11), (7350, 12), (12345, 3)] {
        for (ch, cfg) in [(1u16, 1u8), (2, 2), (7, 7), (9, 7)] {
            let b = build_audio_specific_config(rate, ch);
            assert_eq!(b.len(), 2);
            assert_eq!(b[0] >> 3, 2);
            assert_eq!(((b[0] & 0x07) << 1) | (b[1] >> 7), idx);
            assert_eq!((b[1] >> 3) & 0x0f, cfg);
            assert_eq!(b[1] & 0x07, 0);
        }
    }
}

#[test]
fn descriptor_and_language_encodings() {
    assert_eq!(build_descriptor(0x06, &[0x02]), vec![0x06, 0x01, 0x02]);
    let long = build_descriptor(0x05, &[7u8; 200]);
    assert_eq!(&long[..5], &[0x05, 0x80, 0x80, 0x81, 0x48]);
    assert_eq!(long.len(), 205);
    assert_eq!(encode_language_code("und"), [0x55, 0xc4]);
    assert_eq!(encode_language_code("eng"), [0x15, 0xc7]);
    assert_eq!(encode_language_code(""), [0x55, 0xc4]);
}

#[test]
fn streaming_muxer_fragment_fields() {
    let mut m = MuxerState::new(MuxerConfig::default());
    m.init().unwrap();
    let header = m.get_fragment();
    assert_eq!(&header[4..8], b"ftyp");
    assert_eq!(be32_at(&header, 12), 0x200);
    m.push_video_chunk(&[0u8; 100], 1_000_000, true).unwrap();
    let f = m.get_fragment();
    assert_eq!(be32_at(&f, 0), 96);
    let (seq_no, rs) = runs(&f);
    assert_eq!(seq_no, 1);
    assert_eq!(rs[0].tfdt, 30000);
    assert_eq!(rs[0].data_offset, 104);
    assert_eq!(rs[0].entries[0], vec![1000, 100]);
    assert_eq!(be32_at(&f, 96), 108);
    assert_eq!(&f[100..104], b"mdat");
    m.push_audio_chunk(&[0u8; 50], 1_000_000).unwrap();
    let a = m.get_fragment();
    let (aseq, ars) = runs(&a);
    assert_eq!(aseq, 1);
    assert_eq!(ars[0].tfdt, 48000);
    assert_eq!(ars[0].entries[0], vec![1024, 50]);
    assert_eq!(m.video_sequence_number, 1);
    assert_eq!(m.audio_sequence_number, 1);
}

#[test]
fn bookkeeping_types() {
    let id = ChunkId::new(41);
    assert_eq!(id.next(), ChunkId(42));
    let meta = ChunkMetadata::new(id, 5, 10, "abc".to_string(), true);
    assert_eq!(meta.chunk_id, ChunkId(41));
    assert_eq!(meta.hash, "abc");
    assert_eq!(SessionState::Standby.name(), "standby");
    assert_eq!(SessionState::Recording.name(), "recording");
    assert_eq!(SessionState::Finalizing.name(), "finalizing");
    assert_eq!(SessionState::Synced.name(), "synced");
    let nil = uuid::Uuid::nil();
    assert_eq!(*SessionId::from_uuid(nil).as_uuid(), nil);
    assert_ne!(SessionId::new(), SessionId::new());
}
