//! A minimal HTTP/2 client core, with its behaviour stated in contracts and
//! proved.
//!
//! The frame codec comes in layers: [`wire`] lays out the 9-byte frame
//! header, [`flags`] and [`frame_type`] give each frame type its typed flag
//! set, and [`frame`] parses frames from a byte stream that arrives in
//! chunks and writes them back. [`buffer`] keeps the bytes that wait for the
//! parser, and [`header_block`] stands between the codec and HPACK.
//!
//! On top of the codec, [`driver`] runs one request on one stream: preface,
//! SETTINGS, one HEADERS frame built by [`request`], and the response frames
//! until the stream ends. The driver does no I/O of its own; it tells its
//! caller what to send and when to read.
//!
//! [`join`] holds the decisions of a small future combinator.

pub mod buffer;
pub mod driver;
pub mod flags;
pub mod frame;
pub mod frame_type;
pub mod header_block;
pub mod join;
pub mod request;
pub mod wire;
