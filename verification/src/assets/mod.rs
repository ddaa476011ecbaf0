//! Assets: their types, identifiers and metadata, the registry of known
//! assets and the hub that asks factories to load and free them.

use vstd::prelude::*;

pub mod factory;
pub mod hub;
pub mod metadata;
pub mod raw;
pub mod registry;

verus! {

/// The kind of data an asset holds.
#[derive(Debug, Clone, Copy, PartialEq, Eq, Structural, Hash)]
pub enum AssetType {
    Unknown,
    // Shader types
    ShaderGLSL,
    ShaderSPIRV,
    ShaderHLSL,
    // Audio types
    AudioMIDI,
    AudioFLAC,
    AudioWAV,
    AudioOGG,
    // Image types
    ImagePNG,
    ImageJPEG,
    ImageBMP,
    // Font types
    FontTTF,
    FontOTF,
    // Model types
    ModelOBJ,
    ModelGLTF,
    ModelFBX,
}

impl Default for AssetType {
    fn default() -> (r: AssetType)
        ensures
            r == AssetType::Unknown,
    {
        AssetType::Unknown
    }
}

/// The identifier of an asset.
#[derive(Debug, PartialEq, Eq, Hash)]
pub struct AssetID(String);

impl View for AssetID {
    type V = Seq<char>;

    closed spec fn view(&self) -> Seq<char> {
        self.0@
    }
}

impl AssetID {
    pub fn new(str: String) -> (r: AssetID)
        ensures
            r@ == str@,
    {
        AssetID(str)
    }

    /// The identifier's text.
    pub fn as_string(&self) -> (r: &String)
        ensures
            r@ == self@,
    {
        &self.0
    }

    /// Whether two identifiers are equal.
    pub fn same(&self, other: &AssetID) -> (r: bool)
        ensures
            r == (self@ == other@),
    {
        self.0 == other.0
    }
}

impl Clone for AssetID {
    fn clone(&self) -> (r: AssetID)
        ensures
            r@ == self@,
    {
        AssetID(self.0.clone())
    }
}

} // verus!
