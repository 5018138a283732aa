use catremote::audio::{AudioConfig, OpusEncoder};
use catremote::capture::{
    core_tick, frame_kind, recording_config, select_capture_backend, select_encoder, CaptureBackendKind, Codec,
    CoreError, EncoderKind, FrameType, NvencEncoder,
};
use catremote::caps::Capabilities;
use catremote::input::{
    gamepad_button_actions, map_controller_event, ControllerAction, ControllerEvent, InjectorAction,
    InputInjector, KeyCode, MouseButton, StickAxis,
};
use catremote::libei::{Context, DeviceType, LibeiContextImpl};
use catremote::protocol::{default_handlers, select_protocol, MockProtocol, Protocol, ProtocolHandler};

#[test]
fn backend_and_encoder_selection() {
    let mut caps = Capabilities::default();
    assert!(matches!(select_capture_backend(&caps), Err(CoreError::NoCaptureBackend)));
    caps.compositor.wlr_screencopy_v1 = true;
    assert_eq!(select_capture_backend(&caps).unwrap(), CaptureBackendKind::WlrScreencopy);
    caps.compositor.ext_image_capture_source_v1 = true;
    assert_eq!(select_capture_backend(&caps).unwrap(), CaptureBackendKind::ExtImageCaptureSource);
    match select_encoder(&caps) {
        Err(CoreError::NoEncoder(msg)) => assert_eq!(msg, "No VA-API or NVENC available"),
        _ => panic!("expected NoEncoder"),
    }
    caps.gpu_encoders.nvenc.available = true;
    assert_eq!(select_encoder(&caps).unwrap(), EncoderKind::Nvenc);
    caps.gpu_encoders.vaapi.available = true;
    assert_eq!(select_encoder(&caps).unwrap(), EncoderKind::Vaapi);
}

#[test]
fn keyframe_cadence() {
    assert_eq!(frame_kind(1, 120), (true, FrameType::IDR));
    assert_eq!(frame_kind(2, 120), (false, FrameType::P));
    assert_eq!(frame_kind(121, 120), (true, FrameType::IDR));
    assert_eq!(frame_kind(120, 120), (false, FrameType::P));
    assert_eq!(frame_kind(1, 1), (true, FrameType::IDR));
    assert_eq!(frame_kind(2, 1), (true, FrameType::IDR));
    assert_eq!(frame_kind(3, 2), (true, FrameType::IDR));
    assert_eq!(frame_kind(4, 2), (false, FrameType::P));
}

#[test]
fn nvenc_encoder_counts_frames() {
    let config = recording_config(Codec::HEVC, 20000, 60, 2, 1920, 1080);
    assert_eq!(config.bitrate, 20_000_000);
    assert_eq!(config.keyframe_interval, 120);
    assert!(config.profile.is_none());
    let mut enc = NvencEncoder::new(&config).unwrap();
    assert!(enc.start().is_ok());
    let f1 = enc.encode().unwrap();
    assert_eq!((f1.pts, f1.dts, f1.is_keyframe, f1.frame_type), (1, 1, true, FrameType::IDR));
    assert!(f1.data.is_empty());
    let f2 = enc.encode().unwrap();
    assert_eq!((f2.pts, f2.is_keyframe, f2.frame_type), (2, false, FrameType::P));
    assert!(enc.set_bitrate(5000).is_ok());
    assert_eq!(enc.config.bitrate, 5000);
    assert_eq!(enc.frame_count, 2);
    assert!(enc.stop().is_ok());
}

#[test]
fn passthrough_audio_encoding() {
    let config = AudioConfig { sample_rate: 48000, channels: 2, bitrate: 128000, frame_size: 960 };
    let mut enc = OpusEncoder::new(&config).unwrap();
    let out = enc.encode(&[1, -1, 0x1234, i16::MIN]).unwrap();
    assert_eq!(out, vec![0x01, 0x00, 0xff, 0xff, 0x34, 0x12, 0x00, 0x80]);
    assert_eq!(enc.frame_count, 1);
    assert!(enc.encode(&[]).unwrap().is_empty());
    assert_eq!(enc.frame_count, 2);
}

#[test]
fn controller_axes() {
    let ev = ControllerEvent { event_type: 3, code: 0x00, value: -20000 };
    assert_eq!(map_controller_event(ev), vec![ControllerAction::Axis { axis: StickAxis::LeftX, value: -20000 }]);
    let ev = ControllerEvent { event_type: 3, code: 0x04, value: 5 };
    assert_eq!(map_controller_event(ev), vec![ControllerAction::Axis { axis: StickAxis::RightY, value: 5 }]);
    let ev = ControllerEvent { event_type: 3, code: 0x02, value: 5 };
    assert!(map_controller_event(ev).is_empty());
}

#[test]
fn controller_buttons_and_keys() {
    let ev = ControllerEvent { event_type: 1, code: 0x131, value: 1 };
    assert_eq!(map_controller_event(ev), vec![ControllerAction::Button { button: 3, pressed: true }]);
    let ev = ControllerEvent { event_type: 1, code: 0x13d, value: 0 };
    assert_eq!(map_controller_event(ev), vec![ControllerAction::Key { key: 0x3c, pressed: false }]);
    let ev = ControllerEvent { event_type: 1, code: 0x13b, value: 2 };
    assert_eq!(map_controller_event(ev), vec![ControllerAction::Button { button: 8, pressed: false }]);
    let ev = ControllerEvent { event_type: 1, code: 0x132, value: 1 };
    assert!(map_controller_event(ev).is_empty());
    let ev = ControllerEvent { event_type: 2, code: 0x130, value: 1 };
    assert!(map_controller_event(ev).is_empty());
}

#[test]
fn gamepad_buttons() {
    assert_eq!(
        gamepad_button_actions(true, true, true, true),
        vec![
            InjectorAction::Click { button: MouseButton::Left, pressed: true },
            InjectorAction::Press { key: KeyCode::Space, pressed: true },
            InjectorAction::Click { button: MouseButton::Right, pressed: true },
            InjectorAction::Press { key: KeyCode::Escape, pressed: true },
        ]
    );
    assert!(gamepad_button_actions(false, false, false, false).is_empty());
    assert_eq!(
        gamepad_button_actions(false, false, false, true),
        vec![InjectorAction::Press { key: KeyCode::Escape, pressed: true }]
    );
}

#[test]
fn libei_session() {
    let ctx = Context::new("catremote").unwrap();
    assert!(ctx.connect().is_ok());
    let seat = ctx.get_seat("default").unwrap();
    let mut dev = seat.create_device("x", DeviceType::Keyboard).unwrap();
    assert!(dev.touch_frame().is_ok());
    let mut s = LibeiContextImpl::new().unwrap();
    assert!(s.device.is_none());
    assert!(s.inject_pointer_button(1, true).is_ok());
    s.connect().unwrap();
    assert!(s.context.is_some() && s.seat.is_some() && s.device.is_some());
    assert!(s.inject_keyboard_key(30, false).is_ok());
    assert!(s.inject_keyboard_modifiers(4).is_ok());
    assert!(s.inject_touch_up(0).is_ok());
    s.disconnect().unwrap();
    assert!(s.context.is_none() && s.seat.is_none() && s.device.is_none());
}

#[test]
fn protocol_names_and_handlers() {
    assert_eq!(Protocol::WebSocket.to_string(), "WebSocket");
    assert_eq!(Protocol::SPICE.to_string(), "SPICE");
    let hs = default_handlers();
    assert_eq!(hs.len(), 7);
    assert_eq!(hs[0], MockProtocol::new(Protocol::UDP, Some(35)));
    assert_eq!(hs[4], MockProtocol::new(Protocol::SPICE, None));
    assert_eq!(hs[2].name(), Protocol::WebRTC);
    assert_eq!(MockProtocol::new(Protocol::RDP, Some(7)).name(), Protocol::RDP);
}

#[test]
fn protocol_selection() {
    let results: Vec<(Protocol, Option<u64>)> =
        default_handlers().iter().map(|h| (h.protocol, h.mocked_latency)).collect();
    assert_eq!(select_protocol(&results), Protocol::WebRTC);
    let results = vec![
        (Protocol::TCP, Some(25)),
        (Protocol::UDP, Some(12)),
        (Protocol::VNC, Some(12)),
        (Protocol::RDP, None),
    ];
    assert_eq!(select_protocol(&results), Protocol::UDP);
    let results = vec![(Protocol::VNC, Some(30))];
    assert_eq!(select_protocol(&results), Protocol::VNC);
    let results = vec![(Protocol::VNC, Some(31)), (Protocol::SPICE, None)];
    assert_eq!(select_protocol(&results), Protocol::WebRTC);
    assert_eq!(select_protocol(&vec![]), Protocol::WebRTC);
}

#[test]
fn nvenc_encoder_keeps_settings() {
    let mut config = recording_config(Codec::H264, 8000, 30, 1, 1280, 720);
    config.profile = Some("high".to_string());
    config.preset = Some("p4".to_string());
    let mut enc = NvencEncoder::new(&config).unwrap();
    assert_eq!(enc.config.profile.as_deref(), Some("high"));
    assert_eq!(enc.config.preset.as_deref(), Some("p4"));
    assert_eq!((enc.config.width, enc.config.height, enc.config.fps), (1280, 720, 30));
    assert!(enc.set_bitrate(1234).is_ok());
    assert_eq!(enc.config.bitrate, 1234);
    assert_eq!(enc.config.codec, Codec::H264);
    assert_eq!(enc.config.keyframe_interval, 30);
    assert_eq!(enc.config.profile.as_deref(), Some("high"));
}

#[test]
fn input_injector_is_stateless() {
    assert_eq!(InputInjector::new(), InputInjector {});
}

#[test]
fn core_daemon_schedule() {
    let t = core_tick(60, 60, true);
    assert!(t.report && !t.inject_gamepad && !t.press_b);
    let t = core_tick(180, 60, true);
    assert!(t.report && t.inject_gamepad && !t.press_b);
    let t = core_tick(360, 60, true);
    assert!(t.report && t.inject_gamepad && t.press_b);
    let t = core_tick(360, 60, false);
    assert!(t.report && !t.inject_gamepad && !t.press_b);
    let t = core_tick(61, 60, true);
    assert!(!t.report && !t.inject_gamepad && !t.press_b);
}
