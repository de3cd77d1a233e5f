//! Byte-stream reading and writing over in-memory buffers, with typed
//! accessors for fixed-width and variable-length integers and bounded
//! sub-stream views.
//!
//! The capability surface is a small set of traits: [`Seekable`] for
//! position arithmetic, [`ReadSeek`] and [`WriteSeek`] for the two
//! primitive byte transfers, and [`ReadVal`] and [`WriteVal`] for every
//! typed accessor, derived from the primitives alone.  [`Readable`],
//! [`Writable`] and [`Rw`] complete the surface for root streams, which
//! can also be confined to a window through the views in [`limited`].

pub mod copy;
pub mod data;
pub mod data_ref;
pub mod dynamic;
pub mod error;
pub mod laws;
pub mod limited;
pub mod num;
pub mod read;
pub mod rw;
pub mod seek;
pub mod signed;
pub mod types;
pub mod variable;
pub mod write;

pub use dynamic::Dynamic;
pub use error::DhError;
pub use laws::{lemma_minimality, lemma_signed_round_trip, lemma_signed_varint_round_trip, lemma_stream_round_trip, lemma_varint_round_trip,
    lemma_varint_round_trip_rev, lemma_view_read_containment, lemma_view_translation,
    lemma_view_write_containment, lemma_write_uxle_bound};
pub use limited::{RLimited, RootStream, RwLimited, WLimited};
pub use read::{ReadSeek, ReadVal, Readable};
pub use rw::Rw;
pub use seek::{SeekFrom, Seekable, StreamModel};
pub use types::{ClosedData, DataType, Endianess};
pub use write::{Writable, WriteSeek, WriteVal};
