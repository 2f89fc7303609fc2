//! A small library behind a local-network media server: it classifies media
//! files by extension, builds the sorted file manifest, rasterizes the
//! pairing QR code and keeps the start/stop state of the server.
pub mod text;
pub mod media;
pub mod listing;
pub mod error;
pub mod qr;
pub mod session;
