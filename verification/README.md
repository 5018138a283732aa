# catremote

A remote-desktop streamer for Wayland hosts: it probes the environment,
captures and encodes the screen, and streams video, audio and input over QUIC.

The decisions and data formats are a Verus-verified library (`src/`):

- `rtp`, `packetize`, `packet_laws`: the RTP header wire format and the
  NAL-aware packetizer. A frame's NAL units are the byte runs between Annex-B
  start codes (without the codes); each becomes a single packet or a run of
  FU-A fragments. Proofs show that headers round-trip, every packet fits the
  MTU, packets are numbered consecutively, only the frame's last packet
  carries the marker bit, NAL units hold no start code, and the packets give
  the NAL units back.
- `caps`, `probe`, `validate`, `version`, `evdev_names`, `text`: the
  capability report, how raw probe answers are read, and the readiness check.
- `capture`, `audio`, `libei`, `input`, `protocol`: backend and encoder
  selection, keyframe cadence, PCM framing, the emulated-input session,
  controller mapping and transport selection.
- `cert`: reading and writing the PEM files of the transport's certificate.
- `bytes_buf`: the few calls into the `bytes` crate, with their contracts.

`app/` is the command line and the I/O around the library (Wayland, D-Bus,
PipeWire, NVML, QUIC, files); `tests/` exercises the library on concrete
values.
