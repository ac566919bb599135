//! Tempo estimation core: track selection, packet-loop decisions, channel
//! downmixing, fixed-hop windowing and robust median aggregation, plus the
//! path and encoding helpers used around media files.
pub mod aggregate;
pub mod batch;
pub mod decode;
pub mod downmix;
pub mod encode;
pub mod error;
pub mod filetype;
pub mod media;
pub mod paths;
pub mod segment;
