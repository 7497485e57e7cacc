//! Low-latency audio, video and clipboard streaming over UDP.

pub mod audio;
pub mod bytes;
pub mod capture;
pub mod cli;
pub mod client;
pub mod client_laws;
pub mod clipboard;
pub mod clipboard_laws;
pub mod clock;
pub mod config;
pub mod conversation_laws;
pub mod counting_laws;
pub mod decode_queue;
pub mod decoder;
pub mod encoder;
pub mod h264;
pub mod hardware;
pub mod host;
pub mod host_laws;
pub mod i420;
pub mod id_map;
pub mod interleaving_laws;
pub mod listen;
pub mod message_laws;
pub mod pacer;
pub mod panel;
pub mod peer;
pub mod picture_laws;
pub mod pipeline_laws;
pub mod protocol;
pub mod protocol_laws;
pub mod protocol_v1;
pub mod reassembly;
pub mod record;
pub mod resolution;
pub mod sender;
pub mod sending_laws;
pub mod session_laws;
pub mod sharing_laws;
pub mod sound_laws;
pub mod text;
pub mod tool_laws;
pub mod video;
pub mod video_laws;
pub mod viewing_laws;
pub mod window_laws;
pub mod wire_laws;
