//! Asset headers and type-specific metadata.

use vstd::prelude::*;
use crate::assets::AssetType;

verus! {

/// A 16-byte asset checksum.
#[derive(Debug, Clone, Copy, PartialEq, Eq, Hash)]
pub struct AssetChecksum([u8; 16]);

/// The checksum made of the first (up to) 16 bytes, padded with zeros.
pub open spec fn spec_checksum_bytes(bytes: Seq<u8>) -> Seq<u8> {
    Seq::new(16, |i: int| if i < bytes.len() { bytes[i] } else { 0u8 })
}

impl View for AssetChecksum {
    type V = Seq<u8>;

    closed spec fn view(&self) -> Seq<u8> {
        self.0@
    }
}

impl AssetChecksum {
    /// The checksum made of the first (up to) 16 bytes of `bytes`, padded
    /// with zeros.
    pub fn from_bytes(bytes: &[u8]) -> (r: AssetChecksum)
        ensures
            r@ == spec_checksum_bytes(bytes@),
    {
        let mut checksum = [0u8; 16];
        let len = if bytes.len() < 16 {
            bytes.len()
        } else {
            16
        };
        let mut i: usize = 0;
        while i < len
            invariant
                0 <= i <= len,
                len <= 16,
                len <= bytes.len(),
                len == 16 || len == bytes.len(),
                checksum@.len() == 16,
                forall|j: int| 0 <= j < i ==> checksum@[j] == bytes@[j],
                forall|j: int| i <= j < 16 ==> checksum@[j] == 0u8,
            decreases len - i,
        {
            checksum[i] = bytes[i];
            i = i + 1;
        }
        let r = AssetChecksum(checksum);
        assert(r@ =~= spec_checksum_bytes(bytes@));
        r
    }

    /// The checksum's bytes.
    pub fn bytes(&self) -> (r: [u8; 16])
        ensures
            r@ == self@,
    {
        self.0
    }
}

impl Default for AssetChecksum {
    fn default() -> (r: AssetChecksum)
        ensures
            r@ == Seq::new(16, |i: int| 0u8),
    {
        let r = AssetChecksum([0u8; 16]);
        assert(r@ =~= Seq::new(16, |i: int| 0u8));
        r
    }
}

/// The header of an asset.
#[derive(Debug, Clone, PartialEq, Eq, Hash)]
pub struct AssetHeader {
    pub name: String,
    pub tags: Vec<String>,
    pub asset_type: AssetType,
    pub checksum: AssetChecksum,
}

impl Default for AssetHeader {
    fn default() -> (r: AssetHeader)
        ensures
            r.name@ == Seq::<char>::empty(),
            r.tags@ == Seq::<String>::empty(),
            r.asset_type == AssetType::Unknown,
            r.checksum@ == Seq::new(16, |i: int| 0u8),
    {
        AssetHeader {
            name: String::new(),
            tags: Vec::new(),
            asset_type: AssetType::Unknown,
            checksum: AssetChecksum::default(),
        }
    }
}

/// Shader stages.
#[derive(Debug, Clone, Copy, PartialEq, Eq, Structural)]
pub enum ShaderType {
    Fragment,
    Geometry,
    Vertex,
    Compute,
    TessellationControl,
}

impl Default for ShaderType {
    fn default() -> (r: ShaderType)
        ensures
            r == ShaderType::Fragment,
    {
        ShaderType::Fragment
    }
}

/// Metadata of shader assets.
#[derive(Debug, Clone)]
pub struct ShaderMetadata {
    pub shader_type: ShaderType,
    compile_options: Vec<String>,
}

impl ShaderMetadata {
    /// The compile options.
    pub closed spec fn spec_compile_options(&self) -> Seq<String> {
        self.compile_options@
    }

    /// The shader stage.
    pub closed spec fn spec_shader_type(&self) -> ShaderType {
        self.shader_type
    }

    pub fn compile_options(&self) -> (r: &Vec<String>)
        ensures
            r@ == self.spec_compile_options(),
    {
        &self.compile_options
    }
}

impl Default for ShaderMetadata {
    fn default() -> (r: ShaderMetadata)
        ensures
            r.spec_shader_type() == ShaderType::Fragment,
            r.spec_compile_options() == Seq::<String>::empty(),
    {
        ShaderMetadata { shader_type: ShaderType::default(), compile_options: Vec::new() }
    }
}

/// Metadata of audio assets.
#[derive(Debug, Clone, Copy, PartialEq, Eq, Structural)]
pub struct AudioMetadata {}

impl Default for AudioMetadata {
    fn default() -> (r: AudioMetadata)
        ensures
            r == (AudioMetadata {}),
    {
        AudioMetadata {}
    }
}

/// Metadata of image assets.
#[derive(Debug, Clone, Copy, PartialEq, Eq, Structural)]
pub struct ImageMetadata {}

impl Default for ImageMetadata {
    fn default() -> (r: ImageMetadata)
        ensures
            r == (ImageMetadata {}),
    {
        ImageMetadata {}
    }
}

/// Metadata of font assets.
#[derive(Debug, Clone, Copy, PartialEq, Eq, Structural)]
pub struct FontMetadata {}

impl Default for FontMetadata {
    fn default() -> (r: FontMetadata)
        ensures
            r == (FontMetadata {}),
    {
        FontMetadata {}
    }
}

/// Metadata of model assets.
#[derive(Debug, Clone, Copy, PartialEq, Eq, Structural)]
pub struct ModelMetadata {}

impl Default for ModelMetadata {
    fn default() -> (r: ModelMetadata)
        ensures
            r == (ModelMetadata {}),
    {
        ModelMetadata {}
    }
}

/// Metadata that depends on the asset type.
#[derive(Debug, Clone)]
pub enum TypeSpecificMetadata {
    Unknown,
    Shader(ShaderMetadata),
    Audio(AudioMetadata),
    Image(ImageMetadata),
    Font(FontMetadata),
    Model(ModelMetadata),
}

/// Shader asset types.
pub open spec fn is_shader_type(t: AssetType) -> bool {
    t == AssetType::ShaderGLSL || t == AssetType::ShaderSPIRV || t == AssetType::ShaderHLSL
}

/// Audio asset types that carry audio metadata (MIDI does not).
pub open spec fn is_audio_type(t: AssetType) -> bool {
    t == AssetType::AudioFLAC || t == AssetType::AudioWAV || t == AssetType::AudioOGG
}

/// Image asset types.
pub open spec fn is_image_type(t: AssetType) -> bool {
    t == AssetType::ImagePNG || t == AssetType::ImageJPEG || t == AssetType::ImageBMP
}

/// Font asset types.
pub open spec fn is_font_type(t: AssetType) -> bool {
    t == AssetType::FontTTF || t == AssetType::FontOTF
}

/// Model asset types.
pub open spec fn is_model_type(t: AssetType) -> bool {
    t == AssetType::ModelOBJ || t == AssetType::ModelFBX || t == AssetType::ModelGLTF
}

impl TypeSpecificMetadata {
    /// Whether the metadata suits an asset of type `t`.
    pub open spec fn spec_suitable_for(&self, t: AssetType) -> bool {
        match self {
            TypeSpecificMetadata::Shader(_) => is_shader_type(t),
            TypeSpecificMetadata::Audio(_) => is_audio_type(t),
            TypeSpecificMetadata::Image(_) => is_image_type(t),
            TypeSpecificMetadata::Font(_) => is_font_type(t),
            TypeSpecificMetadata::Model(_) => is_model_type(t),
            TypeSpecificMetadata::Unknown => false,
        }
    }

    /// The default metadata for an asset of type `t`: the default metadata
    /// of its category, or `Unknown` for unknown and MIDI assets.
    pub fn default_for(asset_type: AssetType) -> (r: TypeSpecificMetadata)
        ensures
            is_shader_type(asset_type) ==> (r matches TypeSpecificMetadata::Shader(m) && m.spec_shader_type()
                == ShaderType::Fragment && m.spec_compile_options() == Seq::<String>::empty()),
            is_audio_type(asset_type) ==> r == TypeSpecificMetadata::Audio(AudioMetadata {}),
            is_image_type(asset_type) ==> r == TypeSpecificMetadata::Image(ImageMetadata {}),
            is_font_type(asset_type) ==> r == TypeSpecificMetadata::Font(FontMetadata {}),
            is_model_type(asset_type) ==> r == TypeSpecificMetadata::Model(ModelMetadata {}),
            asset_type == AssetType::Unknown || asset_type == AssetType::AudioMIDI ==> r
                is Unknown,
    {
        match asset_type {
            AssetType::ShaderGLSL | AssetType::ShaderSPIRV | AssetType::ShaderHLSL => {
                TypeSpecificMetadata::Shader(ShaderMetadata::default())
            },
            AssetType::AudioFLAC | AssetType::AudioWAV | AssetType::AudioOGG => {
                TypeSpecificMetadata::Audio(AudioMetadata::default())
            },
            AssetType::ImagePNG | AssetType::ImageJPEG | AssetType::ImageBMP => {
                TypeSpecificMetadata::Image(ImageMetadata::default())
            },
            AssetType::FontTTF | AssetType::FontOTF => {
                TypeSpecificMetadata::Font(FontMetadata::default())
            },
            AssetType::ModelOBJ | AssetType::ModelFBX | AssetType::ModelGLTF => {
                TypeSpecificMetadata::Model(ModelMetadata::default())
            },
            _ => TypeSpecificMetadata::Unknown,
        }
    }

    /// Whether the metadata suits an asset of type `asset_type`.
    pub fn suitable_for(&self, asset_type: AssetType) -> (r: bool)
        ensures
            r == self.spec_suitable_for(asset_type),
    {
        match self {
            TypeSpecificMetadata::Shader(_) => {
                asset_type == AssetType::ShaderGLSL || asset_type == AssetType::ShaderSPIRV
                    || asset_type == AssetType::ShaderHLSL
            },
            TypeSpecificMetadata::Audio(_) => {
                matches!(asset_type, AssetType::AudioFLAC | AssetType::AudioWAV | AssetType::AudioOGG)
            },
            TypeSpecificMetadata::Image(_) => {
                matches!(asset_type, AssetType::ImagePNG | AssetType::ImageJPEG | AssetType::ImageBMP)
            },
            TypeSpecificMetadata::Font(_) => {
                matches!(asset_type, AssetType::FontTTF | AssetType::FontOTF)
            },
            TypeSpecificMetadata::Model(_) => {
                matches!(asset_type, AssetType::ModelOBJ | AssetType::ModelFBX | AssetType::ModelGLTF)
            },
            TypeSpecificMetadata::Unknown => false,
        }
    }
}

impl Default for TypeSpecificMetadata {
    fn default() -> (r: TypeSpecificMetadata)
        ensures
            r is Unknown,
    {
        TypeSpecificMetadata::Unknown
    }
}

/// The default metadata for a type suits that type exactly when the type
/// is neither unknown nor MIDI.
pub proof fn law_default_metadata_suits(t: AssetType, m: TypeSpecificMetadata)
    requires
        is_shader_type(t) ==> m is Shader,
        is_audio_type(t) ==> m is Audio,
        is_image_type(t) ==> m is Image,
        is_font_type(t) ==> m is Font,
        is_model_type(t) ==> m is Model,
        t == AssetType::Unknown || t == AssetType::AudioMIDI ==> m is Unknown,
    ensures
        m.spec_suitable_for(t) <==> (t != AssetType::Unknown && t != AssetType::AudioMIDI),
{
}

/// Metadata of one category suits only the types of that category.
pub proof fn law_suitable_types_disjoint(m: TypeSpecificMetadata, t: AssetType)
    ensures
        m.spec_suitable_for(t) ==> (m is Shader <==> is_shader_type(t)) && (m is Audio
            <==> is_audio_type(t)) && (m is Image <==> is_image_type(t)) && (m is Font
            <==> is_font_type(t)) && (m is Model <==> is_model_type(t)),
{
}

} // verus!
