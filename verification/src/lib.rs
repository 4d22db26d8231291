//! Decoder for legacy city-simulation save files: container framing with
//! platform-variant normalization, run-length decompression, per-tile plane
//! decoding, building-footprint reconstruction and the flat parameter block,
//! assembled into one immutable city aggregate. Every decoder states its
//! meaning as a contract over the raw bytes.

pub mod bit_flags;
pub mod budget;
pub mod building;
pub mod buildings;
pub mod city;
pub mod errors;
pub mod footprint;
pub mod graph;
pub mod minimap;
pub mod misc;
pub mod sc2_iff_parse;
pub mod sc_util;
pub mod scenario;
pub mod thing;
pub mod tile;
