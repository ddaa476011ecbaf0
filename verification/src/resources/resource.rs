//! Resource identifiers and the resource types of the queued loader.

use vstd::prelude::*;

verus! {

/// The kind of data a resource holds.
#[derive(Debug, Clone, Copy, PartialEq, Eq, Structural, Hash)]
pub enum ResourceType {
    Unknown,
    // Shader types
    ShaderGLSL,
    ShaderSPIRV,
    ShaderHLSL,
    // Audio types
    AudioMIDI,
    AudioFLAC,
    AudioWAV,
    AudioOGG,
    // Image types
    ImagePNG,
    ImageJPEG,
    ImageBMP,
    // Font types
    FontTTF,
    FontOTF,
    // Model types
    ModelOBJ,
    ModelGLTF,
    ModelFBX,
}

impl Default for ResourceType {
    fn default() -> (r: ResourceType)
        ensures
            r == ResourceType::Unknown,
    {
        ResourceType::Unknown
    }
}

/// The identifier of a resource.
#[derive(Debug, PartialEq, Eq, Hash)]
pub struct ResourceID(String);

impl View for ResourceID {
    type V = Seq<char>;

    closed spec fn view(&self) -> Seq<char> {
        self.0@
    }
}

impl ResourceID {
    pub fn new(str: String) -> (r: ResourceID)
        ensures
            r@ == str@,
    {
        ResourceID(str)
    }

    /// The identifier's text.
    pub fn as_string(&self) -> (r: &String)
        ensures
            r@ == self@,
    {
        &self.0
    }
}

impl Clone for ResourceID {
    fn clone(&self) -> (r: ResourceID)
        ensures
            r@ == self@,
    {
        ResourceID(self.0.clone())
    }
}

} // verus!
