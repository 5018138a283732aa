//! Verified core of the catremote remote-desktop streamer: the RTP wire format
//! and NAL-aware packetizer of the transport, capability evaluation of the
//! environment probe, encoder and backend selection of the capture engine,
//! controller and input mapping, and protocol selection.

pub mod rtp;
pub mod bytes_buf;
pub mod packetize;
pub mod packet_laws;
pub mod text;
pub mod version;
pub mod caps;
pub mod validate;
pub mod probe;
pub mod evdev_names;
pub mod capture;
pub mod audio;
pub mod libei;
pub mod input;
pub mod protocol;
pub mod cert;
