//! Encoder configuration, encoded frames, and the choices the capture engine
//! makes: which capture backend and encoder to use, and which frames are keyframes.

use vstd::prelude::*;
use crate::caps::Capabilities;

verus! {

/// Video codec.
#[derive(Debug, Clone, Copy, PartialEq, Eq, Structural)]
pub enum Codec {
    H264,
    HEVC,
}

/// Encoder settings.
#[derive(Debug, Clone)]
pub struct EncoderConfig {
    pub codec: Codec,
    pub bitrate: u32,
    pub fps: u32,
    pub keyframe_interval: u32,
    pub width: u32,
    pub height: u32,
    pub profile: Option<String>,
    pub preset: Option<String>,
}

/// Picture type of an encoded frame.
#[derive(Debug, Clone, Copy, PartialEq, Eq, Structural)]
pub enum FrameType {
    IDR,
    I,
    P,
    B,
}

/// One encoded video frame.
#[derive(Debug, Clone)]
pub struct EncodedFrame {
    pub data: Vec<u8>,
    pub pts: u64,
    pub dts: u64,
    pub is_keyframe: bool,
    pub frame_type: FrameType,
}

/// Failures of the capture engine.
#[derive(Debug, Clone)]
pub enum CoreError {
    NoCaptureBackend,
    NoEncoder(String),
    DmaBufImport(String),
    Encoder(String),
    Capture(String),
    InvalidConfig(String),
}

/// Screen capture backends.
#[derive(Debug, Clone, Copy, PartialEq, Eq, Structural)]
pub enum CaptureBackendKind {
    ExtImageCaptureSource,
    WlrScreencopy,
}

/// Hardware encoders.
#[derive(Debug, Clone, Copy, PartialEq, Eq, Structural)]
pub enum EncoderKind {
    Vaapi,
    Nvenc,
}

/// Picks the capture backend: `ext-image-capture-source-v1` when the
/// compositor offers it, else `wlr-screencopy-v1`, else none.
pub fn select_capture_backend(capabilities: &Capabilities) -> (r: Result<CaptureBackendKind, CoreError>)
    ensures
        capabilities.compositor.ext_image_capture_source_v1 ==> r == Ok::<CaptureBackendKind, CoreError>(
            CaptureBackendKind::ExtImageCaptureSource,
        ),
        !capabilities.compositor.ext_image_capture_source_v1 && capabilities.compositor.wlr_screencopy_v1 ==> r
            == Ok::<CaptureBackendKind, CoreError>(CaptureBackendKind::WlrScreencopy),
        !capabilities.compositor.ext_image_capture_source_v1 && !capabilities.compositor.wlr_screencopy_v1 ==> r
            matches Err(CoreError::NoCaptureBackend),
{
    if capabilities.compositor.ext_image_capture_source_v1 {
        return Ok(CaptureBackendKind::ExtImageCaptureSource);
    }
    if capabilities.compositor.wlr_screencopy_v1 {
        return Ok(CaptureBackendKind::WlrScreencopy);
    }
    Err(CoreError::NoCaptureBackend)
}

/// Picks the encoder: VA-API when available, else NVENC, else none.
pub fn select_encoder(capabilities: &Capabilities) -> (r: Result<EncoderKind, CoreError>)
    ensures
        capabilities.gpu_encoders.vaapi.available ==> r == Ok::<EncoderKind, CoreError>(EncoderKind::Vaapi),
        !capabilities.gpu_encoders.vaapi.available && capabilities.gpu_encoders.nvenc.available ==> r == Ok::<
            EncoderKind,
            CoreError,
        >(EncoderKind::Nvenc),
        !capabilities.gpu_encoders.vaapi.available && !capabilities.gpu_encoders.nvenc.available ==> (r matches Err(
            CoreError::NoEncoder(msg),
        ) && msg@ == "No VA-API or NVENC available"@),
{
    if capabilities.gpu_encoders.vaapi.available {
        return Ok(EncoderKind::Vaapi);
    }
    if capabilities.gpu_encoders.nvenc.available {
        return Ok(EncoderKind::Nvenc);
    }
    Err(CoreError::NoEncoder(String::from_str("No VA-API or NVENC available")))
}

/// Frames count from 1; frames 1, K+1, 2K+1, ... are keyframes for a
/// keyframe interval of K (every frame when K is 1).
pub open spec fn is_keyframe_number(frame_number: u64, keyframe_interval: u32) -> bool {
    frame_number >= 1 && (frame_number - 1) % (keyframe_interval as int) == 0
}

/// Whether frame number `frame_number` is a keyframe, and its picture type
/// (IDR for keyframes, P otherwise).
pub fn frame_kind(frame_number: u64, keyframe_interval: u32) -> (r: (bool, FrameType))
    requires
        keyframe_interval > 0,
    ensures
        r.0 == is_keyframe_number(frame_number, keyframe_interval),
        r.1 == (if r.0 {
            FrameType::IDR
        } else {
            FrameType::P
        }),
{
    let key = frame_number >= 1 && (frame_number - 1) % (keyframe_interval as u64) == 0;
    (key, if key {
        FrameType::IDR
    } else {
        FrameType::P
    })
}

/// The first frame is a keyframe, whether a frame is a keyframe repeats every
/// `interval` frames, and with an interval of 1 every frame is a keyframe.
pub proof fn lemma_keyframe_cadence(n: u64, interval: u32)
    requires
        interval >= 1,
        n >= 1,
        n + interval <= u64::MAX,
    ensures
        is_keyframe_number(1, interval),
        is_keyframe_number(n, interval) == is_keyframe_number((n + interval) as u64, interval),
        interval == 1 ==> is_keyframe_number(n, interval),
{
    let k = interval as int;
    let m = n as int - 1;
    assert((m + k) % k == m % k) by (nonlinear_arith)
        requires
            k >= 1,
    ;
    assert(0int % k == 0) by (nonlinear_arith)
        requires
            k >= 1,
    ;
    assert(k == 1 ==> m % k == 0) by (nonlinear_arith)
        requires
            k >= 1,
    ;
}

/// An owned copy of an optional setting.
fn copy_text(t: &Option<String>) -> (r: Option<String>)
    ensures
        r == *t,
{
    match t {
        Some(s) => Some(s.clone()),
        None => None,
    }
}

/// The NVENC encoder (frame bookkeeping only; it produces empty payloads).
pub struct NvencEncoder {
    pub config: EncoderConfig,
    pub frame_count: u64,
}

impl NvencEncoder {
    /// An encoder with the given settings that has encoded nothing yet.
    pub fn new(config: &EncoderConfig) -> (r: Result<NvencEncoder, CoreError>)
        ensures
            r matches Ok(e) && e.config == *config && e.frame_count == 0,
    {
        let c = EncoderConfig {
            codec: config.codec,
            bitrate: config.bitrate,
            fps: config.fps,
            keyframe_interval: config.keyframe_interval,
            width: config.width,
            height: config.height,
            profile: copy_text(&config.profile),
            preset: copy_text(&config.preset),
        };
        Ok(NvencEncoder { config: c, frame_count: 0 })
    }

    /// Starting needs no work.
    pub fn start(&mut self) -> (r: Result<(), CoreError>)
        ensures
            r is Ok,
            final(self).frame_count == old(self).frame_count,
            final(self).config == old(self).config,
    {
        Ok(())
    }

    /// Stopping needs no work.
    pub fn stop(&mut self) -> (r: Result<(), CoreError>)
        ensures
            r is Ok,
            final(self).frame_count == old(self).frame_count,
            final(self).config == old(self).config,
    {
        Ok(())
    }

    /// Counts one more frame and returns it: presentation and decode
    /// timestamps are the new frame number, and it is a keyframe (IDR) when
    /// it starts a keyframe interval (frames 1, K+1, 2K+1, ...), else a P frame.
    pub fn encode(&mut self) -> (r: Result<EncodedFrame, CoreError>)
        requires
            old(self).frame_count < u64::MAX,
            old(self).config.keyframe_interval > 0,
        ensures
            final(self).frame_count == old(self).frame_count + 1,
            final(self).config == old(self).config,
            r matches Ok(f) && f.data@.len() == 0 && f.pts == final(self).frame_count && f.dts == f.pts
                && f.is_keyframe == is_keyframe_number(f.pts, old(self).config.keyframe_interval)
                && f.frame_type == (if f.is_keyframe {
                FrameType::IDR
            } else {
                FrameType::P
            }),
    {
        self.frame_count = self.frame_count + 1;
        let pts = self.frame_count;
        let (is_keyframe, frame_type) = frame_kind(self.frame_count, self.config.keyframe_interval);
        Ok(EncodedFrame { data: Vec::new(), pts, dts: pts, is_keyframe, frame_type })
    }

    /// Records a new target bitrate.
    pub fn set_bitrate(&mut self, bitrate: u32) -> (r: Result<(), CoreError>)
        ensures
            r is Ok,
            final(self).config == (EncoderConfig { bitrate: bitrate, ..old(self).config }),
            final(self).frame_count == old(self).frame_count,
    {
        self.config.bitrate = bitrate;
        Ok(())
    }
}

/// Encoder settings of the `record` command: bitrate given in kbit/s, keyframe
/// interval in seconds (converted to frames at `fps`), no profile or preset.
pub fn recording_config(codec: Codec, bitrate_kbps: u32, fps: u32, keyframe_secs: u32, width: u32, height: u32) -> (c: EncoderConfig)
    requires
        bitrate_kbps * 1000 <= u32::MAX,
        keyframe_secs * fps <= u32::MAX,
    ensures
        c.codec == codec,
        c.bitrate == bitrate_kbps * 1000,
        c.fps == fps,
        c.keyframe_interval == keyframe_secs * fps,
        c.width == width,
        c.height == height,
        c.profile is None,
        c.preset is None,
{
    EncoderConfig {
        codec,
        bitrate: bitrate_kbps * 1000,
        fps,
        keyframe_interval: keyframe_secs * fps,
        width,
        height,
        profile: None,
        preset: None,
    }
}

/// What the core daemon does on one frame tick besides encoding.
#[derive(Debug, Clone, Copy, PartialEq, Eq, Structural)]
pub struct CoreTick {
    /// Report progress (frame count, packet and audio sizes).
    pub report: bool,
    /// Inject a simulated gamepad event.
    pub inject_gamepad: bool,
    /// Hold button B in that event.
    pub press_b: bool,
}

/// The core daemon's schedule at frame `frame_count` and `fps` frames per
/// second: progress every `fps` frames; with input injection on, a gamepad
/// event every `3·fps` frames, button B held in every other one (every `6·fps`).
pub fn core_tick(frame_count: u32, fps: u32, inject_inputs: bool) -> (t: CoreTick)
    requires
        fps > 0,
        inject_inputs ==> fps * 3 <= u32::MAX,
        inject_inputs && (frame_count as int) % (fps * 3) == 0 ==> fps * 6 <= u32::MAX,
    ensures
        t.report == (frame_count % fps == 0),
        t.inject_gamepad == (inject_inputs && (frame_count as int) % (fps * 3) == 0),
        t.press_b == (t.inject_gamepad && (frame_count as int) % (fps * 6) == 0),
{
    let report = frame_count % fps == 0;
    let mut inject_gamepad = false;
    let mut press_b = false;
    if inject_inputs {
        let period = fps * 3;
        if frame_count % period == 0 {
            inject_gamepad = true;
            press_b = frame_count % (fps * 6) == 0;
        }
    }
    CoreTick { report, inject_gamepad, press_b }
}

} // verus!
