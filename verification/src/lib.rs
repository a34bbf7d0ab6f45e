//! Codec for fixed-size 188-byte transport packets.
//!
//! `Stream` is a bit-granular cursor over a borrowed byte sequence;
//! `Packet` is the structured representation of one 188-byte unit,
//! with accessors for the header fields and the bit-packed timing
//! fields (clock reference and decode timestamp) that live inside
//! the optional adaptation field and the embedded sub-packet header.

pub mod error;
pub mod packet;
pub mod stream;

pub use error::Error;
pub use packet::Header;
pub use packet::Packet;
pub use packet::PacketBuffer;
pub use packet::Payload;
pub use packet::HEADER_SIZE;
pub use packet::PACKET_SIZE;
pub use packet::PAYLOAD_SIZE;
pub use packet::PID_MAX;
pub use packet::SYNC_BYTE;
pub use stream::Stream;
