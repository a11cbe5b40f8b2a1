//! Verified RGBA8 texture and image processing for the Terrarium 3D engine:
//! packed pixel buffers, geometric and colour transforms, mip-chain
//! generation, sRGB encoding and the small enums the renderer indexes by.
pub mod batching;
pub mod face;
pub mod hashing;
pub mod material;
pub mod material_import;
pub mod mesh_import;
pub mod mip;
pub mod outline;
pub mod pixel_format;
pub mod raster;
pub mod sampler;
pub mod srgb;
pub mod surface;
pub mod tween;
pub mod workspace_textures;

pub use batching::{draw_runs, plan_batches, DrawCandidate, DrawRun, PlannedBatch, PreparedBatchKey};
pub use face::Face;
pub use material::{
    Image, MaterialSlot, MeshMaterialSlots, Texture, TextureColorSpace, TextureError, TextureFilter,
    TextureHandle, TextureSet, MATERIAL_SLOT_COUNT,
};
pub use material_import::{import_filter, material_textures, MagFilter, MinFilter, TextureSource};
pub use mesh_import::{GltfError, PrimitiveMode};
pub use outline::OutlineMode;
pub use pixel_format::PixelFormat;
pub use sampler::{sampler_settings, FilterMode, SamplerSettings};
pub use tween::{Easing, Repeat, TweenError, TweenId, TweenTracks};
pub use workspace_textures::WorkspaceTextures;
