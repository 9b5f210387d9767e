//! Verified core of a single-publisher live restreamer.
//!
//! The library takes the media path of an RTMP ingest server and proves it
//! correct: FLV tag demultiplexing, H.264 NAL-unit reassembly into Annex-B
//! elementary streams, AAC-raw to ADTS framing, packing of elementary streams
//! into a transport-stream packet model, and the rolling HLS playlist built
//! from the resulting segments.  Sockets, files and the RTMP chunk codec stay
//! outside; they hand the library plain bytes and timestamps and carry its
//! decisions back out.

pub mod adts;
pub mod flv;
pub mod nalu;
pub mod playlist;
pub mod server;
pub mod ts;
pub mod util;
