//! Catalog-side helpers that do not touch storage: kind/source parsing,
//! alias normalization, lookup normalization and full-text query building.

pub mod common;
pub mod episodes;
pub mod media;
pub mod search;
