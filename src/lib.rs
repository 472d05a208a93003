//! Terrain map generation: heightmap grids, the displacement schedules of the
//! diamond-square and midpoint generators, lattice hashing for noise kernels,
//! colors, the normal-estimation stencil and the configuration choices.
pub mod color;
pub mod config;
pub mod displacement;
pub mod heightmap;
pub mod lattice;
pub mod shade;

pub use color::Color;
pub use config::{
    default_dark, default_light, default_output, resolve_pipeline, Generator, Interpolation,
    Noise, Pipeline,
};
pub use displacement::{
    cell_index, corner_cells, grid_side, step_sizes, Diamond2d, Displacement, Midpoint2d,
};
pub use heightmap::{heightmap_from_vec, Heightmap, OutOfBounds};
pub use lattice::{grad_direction, PermutationTable, Simplex2d};
pub use shade::difference_stencil;
