//! Packs a directory's raster images into an append-only binary archive
//! (`.gpk`) with a sidecar text index (`.gdx`) mapping each image's name to
//! the byte range its re-encoded stream occupies in the archive.

pub mod codec;
pub mod errors;
pub mod index;
pub mod pack;
