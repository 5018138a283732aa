//! The capability report of the host environment.

use vstd::prelude::*;

verus! {

/// Everything the environment probe found.
#[derive(Debug, Clone, Default)]
pub struct Capabilities {
    pub compositor: CompositorCapabilities,
    pub portal: PortalCapabilities,
    pub gpu_encoders: GpuEncoderCapabilities,
    pub pipewire: PipeWireCapabilities,
    pub kernel: KernelCapabilities,
}

/// Wayland screen-capture protocols the compositor offers.
#[derive(Debug, Clone, Default)]
pub struct CompositorCapabilities {
    pub wlr_screencopy_v1: bool,
    pub ext_image_capture_source_v1: bool,
    pub compositor_name: Option<String>,
    pub compositor_version: Option<String>,
}

/// The desktop portal's ScreenCast interface.
#[derive(Debug, Clone, Default)]
pub struct PortalCapabilities {
    pub screencast_available: bool,
    pub screencast_permission: PortalPermissionState,
    pub portal_version: Option<String>,
}

/// Answer of the portal to the screencast permission request.
#[derive(Debug, Clone, Copy, PartialEq, Eq, Structural)]
pub enum PortalPermissionState {
    Unknown,
    Granted,
    Denied,
    NotAvailable,
}

impl Default for PortalPermissionState {
    fn default() -> (r: Self)
        ensures
            r == PortalPermissionState::Unknown,
    {
        PortalPermissionState::Unknown
    }
}

/// Hardware encoders present.
#[derive(Debug, Clone, Default)]
pub struct GpuEncoderCapabilities {
    pub vaapi: VaapiCapabilities,
    pub nvenc: NvencCapabilities,
}

/// VA-API driver and what it supports.
#[derive(Debug, Clone, Default)]
pub struct VaapiCapabilities {
    pub available: bool,
    pub driver: Option<String>,
    pub version: Option<String>,
    pub supported_profiles: Vec<VaapiProfile>,
    pub supported_entrypoints: Vec<VaapiEntrypoint>,
}

/// A VA-API profile by name and number.
#[derive(Debug, Clone, Default, PartialEq, Eq, Hash)]
pub struct VaapiProfile {
    pub name: String,
    pub profile_id: i32,
}

/// A VA-API entrypoint by name and number.
#[derive(Debug, Clone, Default, PartialEq, Eq, Hash)]
pub struct VaapiEntrypoint {
    pub name: String,
    pub entrypoint_id: i32,
}

/// NVIDIA encoder availability.
#[derive(Debug, Clone, Default)]
pub struct NvencCapabilities {
    pub available: bool,
    pub driver_version: Option<String>,
    pub gpu_name: Option<String>,
    pub supported_codecs: Vec<NvencCodec>,
    pub max_width: Option<u32>,
    pub max_height: Option<u32>,
}

/// An entry of the NVENC listing.
#[derive(Debug, Clone, Default, PartialEq, Eq, Hash)]
pub struct NvencCodec {
    pub name: String,
    pub codec_guid: String,
}

/// PipeWire version and modules.
#[derive(Debug, Clone, Default)]
pub struct PipeWireCapabilities {
    pub available: bool,
    pub version: Option<String>,
    pub required_modules: Vec<String>,
    pub missing_modules: Vec<String>,
}

/// Kernel interfaces for zero-copy capture and input.
#[derive(Debug, Clone, Default)]
pub struct KernelCapabilities {
    pub dma_buf: DmaBufCapabilities,
    pub libei: LibeiCapabilities,
    pub evdev: EvdevCapabilities,
}

/// DMA-BUF heaps under `/dev/dma_heap`.
#[derive(Debug, Clone, Default)]
pub struct DmaBufCapabilities {
    pub available: bool,
    pub heaps: Vec<DmaHeap>,
}

/// One DMA-BUF heap.
#[derive(Debug, Clone, Default)]
pub struct DmaHeap {
    pub name: String,
    pub path: String,
    pub size: Option<u64>,
}

/// libei availability and the seats found.
#[derive(Debug, Clone, Default)]
pub struct LibeiCapabilities {
    pub available: bool,
    pub seats: Vec<String>,
}

/// evdev input devices.
#[derive(Debug, Clone, Default)]
pub struct EvdevCapabilities {
    pub available: bool,
    pub devices: Vec<EvdevDevice>,
}

/// One evdev device and its event types.
#[derive(Debug, Clone, Default)]
pub struct EvdevDevice {
    pub path: String,
    pub name: String,
    pub capabilities: Vec<String>,
}

} // verus!
