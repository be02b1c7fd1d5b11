//! An outbound HTTP/1.x request writer: head serialisation, content and
//! transfer encoding, back-pressured draining and a cached `Date` value.

pub mod framing;
pub mod request;
pub mod codec;
pub mod select;
pub mod date;
pub mod writer;
pub mod laws;
