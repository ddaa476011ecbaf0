//! Decoded asset data layouts.

use vstd::prelude::*;
use std::collections::HashMap;

verus! {

/// Kinds of shader sources, textual or precompiled.
#[derive(Debug, Clone, Copy, PartialEq, Eq, Structural, Hash)]
pub enum ShaderSourceType {
    Fragment,
    Geometry,
    Vertex,
    Compute,
    TessellationControl,
    // Precompiled
    PrecompiledFragment,
    PrecompiledGeometry,
    PrecompiledVertex,
    PrecompiledCompute,
    PrecompiledTessellationControl,
}

impl Default for ShaderSourceType {
    fn default() -> (r: ShaderSourceType)
        ensures
            r == ShaderSourceType::Fragment,
    {
        ShaderSourceType::Fragment
    }
}

/// Shader data: compile options and the source of each stage.
#[derive(Debug, Clone)]
pub struct ShaderAssetRaw {
    pub compile_options: Vec<String>,
    pub sources: HashMap<ShaderSourceType, Vec<u8>>,
}

impl Default for ShaderAssetRaw {
    fn default() -> (r: ShaderAssetRaw)
        ensures
            r.compile_options@ == Seq::<String>::empty(),
            r.sources@ == Map::<ShaderSourceType, Vec<u8>>::empty(),
    {
        ShaderAssetRaw { compile_options: Vec::new(), sources: HashMap::new() }
    }
}

/// Texture shapes and sizes.
#[derive(Debug, Clone, Copy, PartialEq, Eq, Structural, Hash)]
pub enum TextureType {
    Unknown,
    Texture1D { width: u32 },
    Texture2D { width: u32, height: u32 },
    TextureCube { size: u32 },
    Texture3D { width: u32, height: u32, depth: u32 },
    Texture2DArray { width: u32, height: u32, layers: u32 },
    TextureCubeArray { size: u32, layers: u32 },
    Texture2DMultisample { width: u32, height: u32, samples: u32 },
    Texture2DMultisampleArray { width: u32, height: u32, layers: u32, samples: u32 },
    TextureBuffer { size: u32 },
}

impl Default for TextureType {
    fn default() -> (r: TextureType)
        ensures
            r == TextureType::Unknown,
    {
        TextureType::Unknown
    }
}

/// Component types of pixel data.
#[derive(Debug, Clone, Copy, PartialEq, Eq, Structural, Hash)]
pub enum PixelDataType {
    U8,
    U16,
    U32,
    U64,
    I8,
    I16,
    I32,
    I64,
    F32,
}

/// Pixel layouts.
#[derive(Debug, Clone, Copy, PartialEq, Eq, Structural, Hash)]
pub enum PixelFormat {
    Unknown,
    RGBA(PixelDataType),
    RGB(PixelDataType),
    BGRA(PixelDataType),
    BGR(PixelDataType),
    SRGB(PixelDataType),
    SRGBA(PixelDataType),
    R8,
    R16,
    R32,
    R64,
    RG8,
    RG16,
    RG32,
    RG64,
}

impl Default for PixelFormat {
    fn default() -> (r: PixelFormat)
        ensures
            r == PixelFormat::Unknown,
    {
        PixelFormat::Unknown
    }
}

/// Texture data.
#[derive(Debug, Clone, PartialEq, Eq, Hash)]
pub struct TextureAssetRaw {
    pub data: Vec<u8>,
    pub texture_type: TextureType,
    pub pixel_format: PixelFormat,
}

impl Default for TextureAssetRaw {
    /// An empty 0x0 two-dimensional RGBA8 texture.
    fn default() -> (r: TextureAssetRaw)
        ensures
            r.data@ == Seq::<u8>::empty(),
            r.texture_type == (TextureType::Texture2D { width: 0, height: 0 }),
            r.pixel_format == PixelFormat::RGBA(PixelDataType::U8),
    {
        TextureAssetRaw {
            data: Vec::new(),
            texture_type: TextureType::Texture2D { width: 0, height: 0 },
            pixel_format: PixelFormat::RGBA(PixelDataType::U8),
        }
    }
}

} // verus!
