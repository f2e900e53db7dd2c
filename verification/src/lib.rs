//! Radius search over a fixed set of geotagged records.
//!
//! The crate holds the exact part of a two-phase proximity query. A spatial
//! tree proposes candidates cheaply, a geodesic formula measures each of
//! them, and this library decides which records enter the index, which
//! candidates name an indexed record, and which measured candidates lie
//! within the radius.
//!
//! Every number that the geometry produces is a binary64 value. The library
//! carries such a value by its bit pattern and orders two of them by integer
//! arithmetic on the patterns, so every decision is taken without
//! floating-point hardware.

pub mod binary64;
pub mod record;
pub mod index;
pub mod theorems;
