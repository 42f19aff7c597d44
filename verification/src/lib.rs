//! Session-bus thumbnail service core: size classes and cache-path
//! derivation, the PNG provenance codec, cache freshness, provider registry
//! dispatch with partial-failure semantics, and the request broker's handle
//! and signal logic. Filesystem and bus I/O stay with the embedding
//! program; everything here is pure and carries contracts.

pub mod broker;
pub mod dims;
pub mod flavor;
pub mod media;
pub mod meta;
pub mod names;
pub mod pngcodec;
pub mod provenance;
pub mod provider;
pub mod registry;
pub mod text;

pub use broker::{HandleCounter, Reply, ThumbReply};
pub use flavor::ThumbFlavor;
pub use media::{Failures, MediaRef, Successes, ThumbJob, ThumbJobBatch};
pub use meta::{stat_micros, ThumbFsMeta, ThumbFullMeta};
pub use names::{destination_filename, temp_filename};
pub use pngcodec::{
    get_thumb_original_metadata, read_thumb_info, write_thumb_with_original_metadata,
};
pub use provider::{ImageProvider, ItemEvent, ItemState, Provider};
pub use registry::{ProviderRegistry, ProviderRegistryBuilder};
