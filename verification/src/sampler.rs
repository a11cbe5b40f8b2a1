//! The sampler settings that each material texture filter selects.
use vstd::prelude::*;
use crate::material::TextureFilter;

verus! {

/// How texels, or mip levels, are combined when a texture is sampled.
#[derive(Clone, Copy, Debug, PartialEq, Eq)]
pub enum FilterMode {
    /// The closest texel (or mip level) is taken.
    Nearest,
    /// Neighbouring texels (or the two closest mip levels) are blended.
    Linear,
}

/// The filtering part of a material sampler. Every material sampler also
/// repeats the texture on wrap and may use the whole mip chain.
#[derive(Clone, Copy, Debug, PartialEq, Eq)]
pub struct SamplerSettings {
    /// Filtering when a texel covers more than one pixel.
    pub mag_filter: FilterMode,
    /// Filtering when a pixel covers more than one texel.
    pub min_filter: FilterMode,
    /// Filtering between mip levels.
    pub mipmap_filter: FilterMode,
    /// The most texture samples taken along the direction of anisotropy.
    pub anisotropy_clamp: u16,
}

/// The settings of the sampler that `filter` selects: point sampling for
/// `Nearest`, bilinear texels with the nearest mip for `Bilinear`, and
/// trilinear sampling for the rest, with 4, 8 or 16 anisotropic samples for
/// the anisotropic filters.
pub open spec fn sampler_settings_spec(filter: TextureFilter) -> SamplerSettings {
    match filter {
        TextureFilter::Nearest => SamplerSettings {
            mag_filter: FilterMode::Nearest,
            min_filter: FilterMode::Nearest,
            mipmap_filter: FilterMode::Nearest,
            anisotropy_clamp: 1,
        },
        TextureFilter::Bilinear => SamplerSettings {
            mag_filter: FilterMode::Linear,
            min_filter: FilterMode::Linear,
            mipmap_filter: FilterMode::Nearest,
            anisotropy_clamp: 1,
        },
        _ => SamplerSettings {
            mag_filter: FilterMode::Linear,
            min_filter: FilterMode::Linear,
            mipmap_filter: FilterMode::Linear,
            anisotropy_clamp: match filter {
                TextureFilter::Anisotropic4x => 4,
                TextureFilter::Anisotropic8x => 8,
                TextureFilter::Anisotropic16x => 16,
                _ => 1,
            },
        },
    }
}

/// The filtering settings of the material sampler for `filter`.
pub fn sampler_settings(filter: TextureFilter) -> (settings: SamplerSettings)
    ensures
        settings == sampler_settings_spec(filter),
{
    let (mag_filter, min_filter, mipmap_filter, anisotropy_clamp) = match filter {
        TextureFilter::Nearest => (FilterMode::Nearest, FilterMode::Nearest, FilterMode::Nearest, 1u16),
        TextureFilter::Bilinear => (FilterMode::Linear, FilterMode::Linear, FilterMode::Nearest, 1u16),
        TextureFilter::Trilinear => (FilterMode::Linear, FilterMode::Linear, FilterMode::Linear, 1u16),
        TextureFilter::Anisotropic4x => (FilterMode::Linear, FilterMode::Linear, FilterMode::Linear, 4u16),
        TextureFilter::Anisotropic8x => (FilterMode::Linear, FilterMode::Linear, FilterMode::Linear, 8u16),
        TextureFilter::Anisotropic16x => (FilterMode::Linear, FilterMode::Linear, FilterMode::Linear, 16u16),
    };
    SamplerSettings { mag_filter, min_filter, mipmap_filter, anisotropy_clamp }
}

} // verus!
