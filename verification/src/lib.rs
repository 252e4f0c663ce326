//! Verified core of a local speech-to-speech lab: backend catalog, runtime
//! stack, lab lifecycle, audio framing and text handling.

pub mod activation;
pub mod api;
pub mod benchmark;
pub mod bring_up;
pub mod config;
pub mod containers;
pub mod devices;
pub mod digest;
pub mod discovery;
pub mod docker;
pub mod download;
pub mod failover;
pub mod gateway;
pub mod gpu;
pub mod host_runtime;
pub mod json;
pub mod lab;
pub mod llm;
pub mod messages;
pub mod modules;
pub mod parking;
pub mod pcm;
pub mod playout;
pub mod realtime;
pub mod recovery;
pub mod registry;
pub mod runtime;
pub mod sentences;
pub mod stt;
pub mod suggest;
pub mod text;
pub mod tts;
pub mod warmup;
pub mod wav;
