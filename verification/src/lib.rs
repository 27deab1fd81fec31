//! Stream selection, subtitle conversion and media description for a
//! Jellyfin-compatible media server.
pub mod conversions;
pub mod description_laws;
pub mod ids;
pub mod infer;
pub mod infer_laws;
pub mod json;
pub mod loading;
pub mod lookup;
pub mod model;
pub mod number;
pub mod paths;
pub mod playback_laws;
pub mod probing;
pub mod remuxdb;
pub mod score;
pub mod selection;
pub mod source_laws;
pub mod srt_laws;
pub mod store_keys;
pub mod stream_service;
pub mod subtitle_laws;
pub mod subtitles;
pub mod text;
pub mod text_laws;
