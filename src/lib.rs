//! A terminal 3D renderer's discrete core: the glyph framebuffer and its
//! triangle rasterizer, the near-plane clipping plan, painter's ordering,
//! diffuse-light quantisation, key handling and mesh-file parsing.
pub mod configuration;
pub mod math;
pub mod engine;
pub mod clip;
pub mod visibility;
pub mod light;
pub mod player;
pub mod wavefront;
