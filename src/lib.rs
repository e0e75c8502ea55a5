//! The exact core of a ray-tracing renderer: packed colors, tile-major
//! texture storage with its mip chain, the frame buffer, nearest-hit
//! selection, the depth-bounded shading recursion, stair layout, and the
//! grid, mesh and starfield helpers around them. Geometry and lighting in
//! floating point are supplied by the application as `ShadeSteps` closures.

pub mod color;
pub mod tiling;
pub mod texture;
pub mod framebuffer;
pub mod render;
pub mod stair;
pub mod maze;
pub mod obj;
pub mod stars;
pub mod bloom;
pub mod boxface;

pub use color::Color;
pub use texture::{Texture, TextureOptions, SkinTexture, Mip, TILE, fit_within};
pub use framebuffer::Framebuffer;
pub use render::{
    MAX_DEPTH, NearestHit, nearest_of, ShadeSteps, Secondary, Transmission, shade, may_trace,
};
pub use stair::{Facing, Orientation, StairLayout, stair_layout, facing_from_forward};
pub use maze::{Maze, is_wall, cell_is_free, filter_maze_row, find_first_free_cell, calc_block_size_offset};
pub use obj::{Face, triangulate_fan, resolve_obj_index};
pub use stars::{Stars, lcg_next};
pub use bloom::{box_blur, BLOOM_RADIUS};
pub use boxface::{Axis, BoxFace, FaceFrame, face_frame, pick_face};
