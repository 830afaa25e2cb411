//! Track configuration of the fragmented-MP4 muxer.
use vstd::prelude::*;

verus! {

/// Track configuration: H.264 video, optionally AAC audio.
#[derive(Debug, Clone)]
pub struct MuxideConfig {
    pub video_width: u32,
    pub video_height: u32,
    /// Video ticks per second.
    pub video_timescale: u32,
    /// Target length of a media segment, in milliseconds.
    pub fragment_duration_ms: u32,
    /// SPS NAL unit, without start code.
    pub sps: Vec<u8>,
    /// PPS NAL unit, without start code.
    pub pps: Vec<u8>,
    pub audio_sample_rate: Option<u32>,
    pub audio_channels: Option<u16>,
    /// Audio ticks per second; the sample rate where absent.
    pub audio_timescale: Option<u32>,
    /// AudioSpecificConfig; synthesised from rate and channels where absent.
    pub audio_specific_config: Option<Vec<u8>>,
}

impl Default for MuxideConfig {
    fn default() -> (r: Self)
        ensures
            r.video_width == 1280,
            r.video_height == 720,
            r.video_timescale == 90000,
            r.fragment_duration_ms == 2000,
            r.sps@.len() == 0,
            r.pps@.len() == 0,
            r.audio_sample_rate is None,
            r.audio_channels is None,
            r.audio_timescale is None,
            r.audio_specific_config is None,
    {
        MuxideConfig {
            video_width: 1280,
            video_height: 720,
            video_timescale: 90000,
            fragment_duration_ms: 2000,
            sps: Vec::new(),
            pps: Vec::new(),
            audio_sample_rate: None,
            audio_channels: None,
            audio_timescale: None,
            audio_specific_config: None,
        }
    }
}

impl MuxideConfig {
    /// Audio is configured: both a sample rate and a channel count are given.
    pub open spec fn audio_configured(&self) -> bool {
        self.audio_sample_rate is Some && self.audio_channels is Some
    }

    /// The sample rate, 48000 where absent.
    pub open spec fn sample_rate(&self) -> u32 {
        match self.audio_sample_rate {
            Some(r) => r,
            None => 48000,
        }
    }

    /// The channel count, 2 where absent.
    pub open spec fn channels(&self) -> u16 {
        match self.audio_channels {
            Some(c) => c,
            None => 2,
        }
    }

    /// Audio ticks per second: the audio timescale, else the sample rate.
    pub open spec fn audio_ticks_per_second(&self) -> u32 {
        match self.audio_timescale {
            Some(t) => t,
            None => self.sample_rate(),
        }
    }

    /// The lengths that the box fields can carry: SPS and PPS lengths are
    /// 16-bit in `avcC`, and the AudioSpecificConfig is kept as short.
    pub open spec fn fits(&self) -> bool {
        &&& self.sps@.len() <= 0xffff
        &&& self.pps@.len() <= 0xffff
        &&& match self.audio_specific_config {
            Some(a) => a@.len() <= 0xffff,
            None => true,
        }
    }

    /// Whether audio is configured.
    pub fn has_audio(&self) -> (r: bool)
        ensures
            r == self.audio_configured(),
    {
        self.audio_sample_rate.is_some() && self.audio_channels.is_some()
    }

    /// The sample rate, 48000 where absent.
    pub fn get_sample_rate(&self) -> (r: u32)
        ensures
            r == self.sample_rate(),
    {
        match self.audio_sample_rate {
            Some(r) => r,
            None => 48000,
        }
    }

    /// The channel count, 2 where absent.
    pub fn get_channels(&self) -> (r: u16)
        ensures
            r == self.channels(),
    {
        match self.audio_channels {
            Some(c) => c,
            None => 2,
        }
    }

    /// Audio ticks per second.
    pub fn get_audio_timescale(&self) -> (r: u32)
        ensures
            r == self.audio_ticks_per_second(),
    {
        match self.audio_timescale {
            Some(t) => t,
            None => self.get_sample_rate(),
        }
    }
}

} // verus!
