use catremote::text::push_signed_decimal;
use catremote::caps::{Capabilities, NvencCodec, PipeWireCapabilities, PortalPermissionState};
use catremote::evdev_names::{
    capability_names, event_type_to_string, is_input_event_device, libei_seat_label, parse_section,
    CapabilitySection,
};
use catremote::probe::{
    compositor_capabilities, note_module_check, nvenc_capabilities, nvenc_codecs_from_listing,
    permission_from_response, pipewire_capabilities_from_version, portal_capabilities, trimmed_string,
    vaapi_version_string, RegistryGlobal,
};
use catremote::validate::{validation_issues, version_less};
use catremote::version::parse_version;

#[test]
fn parse_version_plain() {
    assert_eq!(parse_version("0.3.70"), Some((0, 3, 70)));
    assert_eq!(parse_version("1.2.3"), Some((1, 2, 3)));
    assert_eq!(parse_version("+1.02.3"), Some((1, 2, 3)));
}

#[test]
fn parse_version_patch_suffix() {
    assert_eq!(parse_version("0.3.80-rc1"), Some((0, 3, 80)));
    assert_eq!(parse_version("1.0.5\n"), Some((1, 0, 5)));
    assert_eq!(parse_version("1.2.3.4"), Some((1, 2, 3)));
}

#[test]
fn parse_version_rejects() {
    assert_eq!(parse_version("1.2"), None);
    assert_eq!(parse_version(""), None);
    assert_eq!(parse_version("a.b.c"), None);
    assert_eq!(parse_version("1..3"), None);
    assert_eq!(parse_version("1.2.x"), None);
    assert_eq!(parse_version(" 1.2.3"), None);
    assert_eq!(parse_version("-1.2.3"), None);
    assert_eq!(parse_version("4294967296.0.0"), None);
    assert_eq!(parse_version("4294967295.0.0"), Some((4294967295, 0, 0)));
    assert_eq!(parse_version("pipewire\nCompiled with libpipewire 0.3.80\n"), None);
}

#[test]
fn version_ordering() {
    assert!(version_less((0, 3, 69), (0, 3, 70)));
    assert!(!version_less((0, 3, 70), (0, 3, 70)));
    assert!(!version_less((1, 0, 0), (0, 3, 70)));
    assert!(version_less((0, 2, 99), (0, 3, 70)));
}

fn ready_caps() -> Capabilities {
    let mut caps = Capabilities::default();
    caps.compositor.wlr_screencopy_v1 = true;
    caps.portal.screencast_permission = PortalPermissionState::Granted;
    caps.gpu_encoders.vaapi.available = true;
    caps.pipewire.available = true;
    caps.pipewire.version = Some("1.0.5".to_string());
    caps.kernel.dma_buf.available = true;
    caps.kernel.libei.available = true;
    caps.kernel.evdev.available = true;
    caps
}

#[test]
fn validation_passes_when_ready() {
    assert!(validation_issues(&ready_caps()).is_empty());
}

#[test]
fn validation_lists_every_issue() {
    let mut caps = Capabilities::default();
    caps.pipewire.missing_modules = vec!["a".to_string(), "b".to_string()];
    let issues = validation_issues(&caps);
    assert_eq!(
        issues,
        vec![
            "No supported screen capture protocol (wlr-screencopy-v1 or ext-image-capture-source-v1)".to_string(),
            "ScreenCast portal permission not granted".to_string(),
            "No GPU encoder available (VA-API or NVENC)".to_string(),
            "PipeWire not available".to_string(),
            "Missing PipeWire modules: a, b".to_string(),
            "DMA-BUF heaps not available".to_string(),
            "libei not available".to_string(),
            "evdev not available".to_string(),
        ]
    );
}

#[test]
fn validation_old_pipewire() {
    let mut caps = ready_caps();
    caps.pipewire.version = Some("0.3.65".to_string());
    assert_eq!(validation_issues(&caps), vec!["PipeWire version < 0.3.70".to_string()]);
    caps.pipewire.version = Some("garbage".to_string());
    assert!(validation_issues(&caps).is_empty());
    caps.pipewire.version = None;
    assert!(validation_issues(&caps).is_empty());
}

#[test]
fn validation_portal_denied() {
    let mut caps = ready_caps();
    caps.portal.screencast_permission = PortalPermissionState::Denied;
    assert_eq!(validation_issues(&caps), vec!["ScreenCast portal permission not granted".to_string()]);
}

fn global(name: u32, interface: &str, version: u32) -> RegistryGlobal {
    RegistryGlobal { name, interface: interface.to_string(), version }
}

#[test]
fn compositor_from_globals() {
    let globals = vec![
        global(1, "wl_compositor", 4),
        global(2, "wl_shm", 1),
        global(3, "ext_image_capture_source_manager_v1", 1),
        global(4, "wl_compositor", 6),
    ];
    let caps = compositor_capabilities(&globals);
    assert!(!caps.wlr_screencopy_v1);
    assert!(caps.ext_image_capture_source_v1);
    assert_eq!(caps.compositor_name.as_deref(), Some("wl_compositor"));
    assert_eq!(caps.compositor_version.as_deref(), Some("6"));
    let caps = compositor_capabilities(&vec![global(9, "wlr_screencopy_manager_v1", 3)]);
    assert!(caps.wlr_screencopy_v1);
    assert!(caps.compositor_name.is_none());
    assert!(caps.compositor_version.is_none());
}

#[test]
fn portal_answers() {
    assert_eq!(permission_from_response(Some(0)), PortalPermissionState::Granted);
    assert_eq!(permission_from_response(Some(1)), PortalPermissionState::Denied);
    assert_eq!(permission_from_response(Some(2)), PortalPermissionState::Unknown);
    assert_eq!(permission_from_response(None), PortalPermissionState::NotAvailable);
    let caps = portal_capabilities(true, Some(0));
    assert!(caps.screencast_available);
    assert_eq!(caps.screencast_permission, PortalPermissionState::Granted);
    assert_eq!(caps.portal_version.as_deref(), Some("1.0"));
    let caps = portal_capabilities(false, Some(0));
    assert!(!caps.screencast_available);
    assert_eq!(caps.screencast_permission, PortalPermissionState::Unknown);
    assert!(caps.portal_version.is_none());
}

#[test]
fn pipewire_version_and_modules() {
    let caps = pipewire_capabilities_from_version("0.3.80\n");
    assert!(caps.available);
    assert_eq!(caps.version.as_deref(), Some("0.3.80"));
    assert_eq!(
        caps.required_modules,
        vec![
            "libpipewire-module-libcamera".to_string(),
            "libpipewire-module-roc".to_string(),
            "libpipewire-module-v4l2".to_string(),
            "libpipewire-module-x11-bell".to_string(),
        ]
    );
    assert!(caps.missing_modules.is_empty());
    let old = pipewire_capabilities_from_version("0.3.60");
    assert!(old.required_modules.is_empty());
    let mut caps: PipeWireCapabilities = caps;
    let listing = "module libpipewire-module-roc loaded\n";
    let required = caps.required_modules.clone();
    for m in &required {
        note_module_check(&mut caps, m, Some(listing));
    }
    assert_eq!(
        caps.missing_modules,
        vec![
            "libpipewire-module-libcamera".to_string(),
            "libpipewire-module-v4l2".to_string(),
            "libpipewire-module-x11-bell".to_string(),
        ]
    );
    note_module_check(&mut caps, &"libpipewire-module-roc".to_string(), None);
    assert_eq!(caps.missing_modules.len(), 4);
}

#[test]
fn nvenc_listing() {
    let codecs = nvenc_codecs_from_listing("  0 \r\n\n 3\n   \n");
    assert_eq!(
        codecs,
        vec![
            NvencCodec { name: "0".to_string(), codec_guid: String::new() },
            NvencCodec { name: "3".to_string(), codec_guid: String::new() },
        ]
    );
    assert!(nvenc_codecs_from_listing("").is_empty());
    let caps = nvenc_capabilities(Some("550.1".to_string()), None, Some("1\n"));
    assert!(caps.available);
    assert_eq!(caps.driver_version.as_deref(), Some("550.1"));
    assert!(caps.gpu_name.is_none());
    assert_eq!(caps.supported_codecs.len(), 1);
    assert_eq!(caps.max_width, Some(8192));
    assert_eq!(caps.max_height, Some(8192));
    assert!(nvenc_capabilities(None, None, None).supported_codecs.is_empty());
}

#[test]
fn trimming_and_vaapi_version() {
    assert_eq!(trimmed_string("  a b\t\n"), "a b");
    assert_eq!(trimmed_string(" \n "), "");
    assert_eq!(trimmed_string("\u{3000}x\u{a0}"), "x");
    assert_eq!(vaapi_version_string(1, 20), "1.20");
    assert_eq!(vaapi_version_string(-1, 0), "-1.0");
}

#[test]
fn event_type_names() {
    assert_eq!(event_type_to_string(0), "EV_SYN");
    assert_eq!(event_type_to_string(3), "EV_ABS");
    assert_eq!(event_type_to_string(23), "EV_FF_STATUS");
    assert_eq!(event_type_to_string(6), "EV_UNKNOWN(6)");
    assert_eq!(event_type_to_string(1234), "EV_UNKNOWN(1234)");
}

#[test]
fn capability_bitmap_names() {
    let bits = [0b0000_1011u8, 0, 0b0000_0010];
    assert_eq!(
        capability_names(&bits),
        vec!["EV_SYN".to_string(), "EV_KEY".to_string(), "EV_ABS".to_string(), "EV_LED".to_string()]
    );
    assert!(capability_names(&[0u8; 4]).is_empty());
}

#[test]
fn report_sections() {
    assert_eq!(parse_section("compositor"), Some(CapabilitySection::Compositor));
    assert_eq!(parse_section("portal"), Some(CapabilitySection::Portal));
    assert_eq!(parse_section("gpu"), Some(CapabilitySection::GpuEncoders));
    assert_eq!(parse_section("gpu-encoders"), Some(CapabilitySection::GpuEncoders));
    assert_eq!(parse_section("pipewire"), Some(CapabilitySection::PipeWire));
    assert_eq!(parse_section("kernel"), Some(CapabilitySection::Kernel));
    assert_eq!(parse_section("Kernel"), None);
}

#[test]
fn kernel_names() {
    assert!(is_input_event_device("event12"));
    assert!(!is_input_event_device("mouse0"));
    assert!(!is_input_event_device("even"));
    assert_eq!(libei_seat_label("1000"), "seat-1000");
}

#[test]
fn signed_decimal_extremes() {
    let mut s = String::from("v");
    push_signed_decimal(&mut s, i64::MIN);
    assert_eq!(s, "v-9223372036854775808");
    let mut s = String::new();
    push_signed_decimal(&mut s, i64::MAX);
    assert_eq!(s, "9223372036854775807");
    let mut s = String::new();
    push_signed_decimal(&mut s, -7);
    assert_eq!(s, "-7");
}
