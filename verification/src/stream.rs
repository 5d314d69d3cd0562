//! The codec against streams: an encoder whose output is pushed to a sink
//! piece by piece, and a decoder that is fed from a source as it asks.

pub mod de;
pub mod ser;

pub use de::Deserializer;
pub use ser::Serializer;
