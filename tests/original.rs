use fmp4_muxer::{
    annex_b_to_avcc, build_audio_specific_config, extract_sps_pps_from_avcc, MuxerConfig, MuxerState,
    MuxideConfig, MuxideMuxerState,
};

fn create_test_sps_pps() -> (Vec<u8>, Vec<u8>) {
    let sps: Vec<u8> = vec![0x67, 0x42, 0xC0, 0x1E, 0xD9, 0x00, 0x50, 0x05, 0xBA, 0x10];
    let pps: Vec<u8> = vec![0x68, 0xCE, 0x3C, 0x80];
    (sps, pps)
}

#[test]
fn test_muxer_init() {
    let mut muxer = MuxerState::new(MuxerConfig::default());
    assert!(muxer.init().is_ok());
    assert!(muxer.initialized);

    let fragment = muxer.get_fragment();
    assert!(!fragment.is_empty());
    assert_eq!(&fragment[4..8], b"ftyp");
}

#[test]
fn test_muxer_push_video_chunk() {
    let mut muxer = MuxerState::new(MuxerConfig::default());
    muxer.init().unwrap();
    muxer.get_fragment();

    let test_data = vec![0u8; 100];
    assert!(muxer.push_video_chunk(&test_data, 0, true).is_ok());

    let fragment = muxer.get_fragment();
    assert!(!fragment.is_empty());
    assert_eq!(&fragment[4..8], b"moof");
}

#[test]
fn test_muxer_push_audio_chunk() {
    let mut muxer = MuxerState::new(MuxerConfig::default());
    muxer.init().unwrap();
    muxer.get_fragment();

    let test_data = vec![0u8; 50];
    assert!(muxer.push_audio_chunk(&test_data, 0).is_ok());

    let fragment = muxer.get_fragment();
    assert!(!fragment.is_empty());
    assert_eq!(&fragment[4..8], b"moof");
}

#[test]
fn test_generate_complete_fmp4_file() {
    let mut muxer = MuxerState::new(MuxerConfig::default());
    muxer.init().unwrap();
    let init_segment = muxer.get_fragment();
    let mut all_data = init_segment.clone();
    for i in 0..5 {
        let test_data = vec![0u8; 100 + i * 10];
        let timestamp = i as u64 * 33333;
        let is_keyframe = i == 0;
        muxer.push_video_chunk(&test_data, timestamp, is_keyframe).unwrap();
        all_data.extend(muxer.get_fragment());
    }
    assert!(all_data.len() > 100);
    assert_eq!(&all_data[4..8], b"ftyp");
}

#[test]
fn test_muxide_muxer_video_only() {
    let (sps, pps) = create_test_sps_pps();
    let config = MuxideConfig {
        video_width: 1280,
        video_height: 720,
        video_timescale: 90000,
        fragment_duration_ms: 2000,
        sps,
        pps,
        ..Default::default()
    };
    let mut muxer = MuxideMuxerState::new(config);
    muxer.init().unwrap();

    let init_segment = muxer.get_init_segment().unwrap();
    assert!(!init_segment.is_empty());
    assert_eq!(&init_segment[4..8], b"ftyp");

    for i in 0..30 {
        let is_keyframe = i == 0;
        let nal_type: u8 = if is_keyframe { 0x65 } else { 0x41 };
        let nal_data = vec![nal_type, 0x00, 0x00, 0x00, 0x00, 0x00, 0x00, 0x00];
        let nal_len = nal_data.len() as u32;
        let mut avcc_data = Vec::new();
        avcc_data.extend_from_slice(&nal_len.to_be_bytes());
        avcc_data.extend_from_slice(&nal_data);
        let timestamp = (i as u64) * 33333;
        muxer.push_video_chunk(&avcc_data, timestamp, is_keyframe).unwrap();
    }

    let complete_file = muxer.get_complete_file().unwrap();
    assert!(complete_file.len() > init_segment.len());
}

#[test]
fn test_muxide_muxer_with_audio() {
    let (sps, pps) = create_test_sps_pps();
    let config = MuxideConfig {
        video_width: 1280,
        video_height: 720,
        video_timescale: 90000,
        fragment_duration_ms: 2000,
        sps,
        pps,
        audio_sample_rate: Some(48000),
        audio_channels: Some(2),
        audio_timescale: Some(48000),
        audio_specific_config: None,
    };
    let mut muxer = MuxideMuxerState::new(config);
    assert!(muxer.has_audio());
    muxer.init().unwrap();

    let init_segment = muxer.get_init_segment().unwrap();
    assert!(!init_segment.is_empty());
    assert_eq!(&init_segment[4..8], b"ftyp");
    assert!(init_segment.windows(4).any(|w| w == b"mp4a"), "Init segment should contain mp4a box");

    for i in 0..30 {
        let is_keyframe = i == 0;
        let nal_type: u8 = if is_keyframe { 0x65 } else { 0x41 };
        let nal_data = vec![nal_type, 0x00, 0x00, 0x00, 0x00, 0x00, 0x00, 0x00];
        let nal_len = nal_data.len() as u32;
        let mut avcc_data = Vec::new();
        avcc_data.extend_from_slice(&nal_len.to_be_bytes());
        avcc_data.extend_from_slice(&nal_data);
        let video_timestamp = (i as u64) * 33333;
        muxer.push_video_chunk(&avcc_data, video_timestamp, is_keyframe).unwrap();
        for j in 0..3 {
            let audio_timestamp = video_timestamp + (j as u64) * 21333;
            let audio_data = vec![0x21, 0x10, 0x04, 0x60, 0x8c, 0x1c, 0x00, 0x00];
            let duration = 21333u32;
            muxer.push_audio_chunk(&audio_data, audio_timestamp, duration).unwrap();
        }
    }

    let complete_file = muxer.get_complete_file().unwrap();
    assert!(complete_file.len() > init_segment.len());
    assert!(muxer.video_frame_count > 0);
    assert!(muxer.audio_frame_count > 0);
}

#[test]
fn test_audio_specific_config_generation() {
    let asc = build_audio_specific_config(48000, 2);
    assert_eq!(asc.len(), 2);
    assert_eq!(asc[0], 0x11);
    assert_eq!(asc[1], 0x90);

    let asc = build_audio_specific_config(44100, 1);
    assert_eq!(asc.len(), 2);
    assert_eq!(asc[0], 0x12);
    assert_eq!(asc[1], 0x08);
}

#[test]
fn test_audio_not_configured_error() {
    let (sps, pps) = create_test_sps_pps();
    let config = MuxideConfig {
        video_width: 1280,
        video_height: 720,
        video_timescale: 90000,
        fragment_duration_ms: 2000,
        sps,
        pps,
        audio_sample_rate: None,
        audio_channels: None,
        ..Default::default()
    };
    let mut muxer = MuxideMuxerState::new(config);
    assert!(!muxer.has_audio());
    muxer.init().unwrap();

    let result = muxer.push_audio_chunk(&[0x00], 0, 1024);
    assert!(result.is_err());
    assert!(result.unwrap_err().contains("Audio not configured"));
}

#[test]
fn test_extract_sps_pps() {
    let avcc: Vec<u8> = vec![
        0x01, 0x42, 0xC0, 0x1E, 0xFF, 0xE1, 0x00, 0x0A, 0x67, 0x42, 0xC0, 0x1E, 0xD9, 0x00, 0x50, 0x05, 0xBA,
        0x10, 0x01, 0x00, 0x04, 0x68, 0xCE, 0x3C, 0x80,
    ];
    let (sps, pps) = extract_sps_pps_from_avcc(&avcc).unwrap();
    assert_eq!(sps.len(), 10);
    assert_eq!(sps[0], 0x67);
    assert_eq!(pps.len(), 4);
    assert_eq!(pps[0], 0x68);
}

#[test]
fn test_annex_b_to_avcc() {
    let annex_b = vec![
        0x00, 0x00, 0x00, 0x01, 0x67, 0x42, 0xC0, 0x1E, 0x00, 0x00, 0x00, 0x01, 0x68, 0xCE, 0x3C, 0x80,
    ];
    let avcc = annex_b_to_avcc(&annex_b);
    let len1 = u32::from_be_bytes([avcc[0], avcc[1], avcc[2], avcc[3]]);
    assert_eq!(len1, 4);
    assert_eq!(avcc[4], 0x67);
    let offset = 4 + len1 as usize;
    let len2 = u32::from_be_bytes([avcc[offset], avcc[offset + 1], avcc[offset + 2], avcc[offset + 3]]);
    assert_eq!(len2, 4);
    assert_eq!(avcc[offset + 4], 0x68);
}
