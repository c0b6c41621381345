//! The Gemma 4 dense text decoder: its config, its checkpoint layout, and the bookkeeping of its
//! attention, adapters and caches.
pub mod adapters;
pub mod attention;
pub mod cache;
pub mod checkpoint;
pub mod config;
pub mod decoder;
pub mod layers;
pub mod mask;
pub mod model;
