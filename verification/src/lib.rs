//! OmniDisc client core: wire-level identifiers and permissions, streaming
//! policy, voice state and media-room events, the microphone pipeline's
//! decisions, device recovery, room-key rotation, file and state encryption
//! framing, subtitle conversion and live-chat replays, each with a
//! machine-checked contract.

pub mod snowflake;
pub mod permissions;
pub mod voice_state;
pub mod e2ee;
pub mod bitrate;
pub mod text;
pub mod audio;
pub mod stream;
pub mod capture;
pub mod engine;
pub mod encode;
pub mod bytes;
pub mod mls;
pub mod subtitle_merge;
pub mod channel;
pub mod limits;
pub mod message;
pub mod gateway;
pub mod rest;
pub mod http_client;
pub mod livechat;
pub mod viewer;
