//! Integer and structural core of a tile-parallel path tracer: pixel geometry,
//! the tile grid, lane packing, nearest-hit selection, scene registries, film
//! bookkeeping and the integrator's per-lane decisions.

pub mod geom;
pub mod tile;
pub mod film;
pub mod lanes;
pub mod hitable;
pub mod material;
pub mod camera;
pub mod sky;
pub mod integrator;
