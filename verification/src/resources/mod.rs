//! Resources: identifiers, headers and checksums, and the registries of
//! known resources and pending queries.

use vstd::prelude::*;

pub mod factory;
pub mod manager;
pub mod registry;
pub mod resource;

verus! {

/// A 16-byte resource checksum.
#[derive(Debug, Clone, Copy, PartialEq, Eq, Hash)]
pub struct ResourceChecksum([u8; 16]);

impl View for ResourceChecksum {
    type V = Seq<u8>;

    closed spec fn view(&self) -> Seq<u8> {
        self.0@
    }
}

impl ResourceChecksum {
    /// The checksum made of the first (up to) 16 bytes of `bytes`, padded
    /// with zeros.
    pub fn from_bytes(bytes: &[u8]) -> (r: ResourceChecksum)
        ensures
            r@ == crate::assets::metadata::spec_checksum_bytes(bytes@),
    {
        let mut checksum = [0u8; 16];
        let len = if bytes.len() < 16 {
            bytes.len()
        } else {
            16
        };
        let mut i: usize = 0;
        while i < len
            invariant
                0 <= i <= len,
                len <= 16,
                len <= bytes.len(),
                len == 16 || len == bytes.len(),
                checksum@.len() == 16,
                forall|j: int| 0 <= j < i ==> checksum@[j] == bytes@[j],
                forall|j: int| i <= j < 16 ==> checksum@[j] == 0u8,
            decreases len - i,
        {
            checksum[i] = bytes[i];
            i = i + 1;
        }
        let r = ResourceChecksum(checksum);
        assert(r@ =~= crate::assets::metadata::spec_checksum_bytes(bytes@));
        r
    }

    /// The checksum's bytes.
    pub fn bytes(&self) -> (r: [u8; 16])
        ensures
            r@ == self@,
    {
        self.0
    }

    /// Whether two checksums are equal.
    pub fn same(&self, other: &ResourceChecksum) -> (r: bool)
        ensures
            r == (self@ == other@),
    {
        let mut i: usize = 0;
        while i < 16
            invariant
                0 <= i <= 16,
                self.0@.len() == 16,
                other.0@.len() == 16,
                forall|j: int| 0 <= j < i ==> self.0@[j] == other.0@[j],
            decreases 16 - i,
        {
            if self.0[i] != other.0[i] {
                return false;
            }
            i = i + 1;
        }
        assert(self.0@ =~= other.0@);
        true
    }
}

impl Default for ResourceChecksum {
    fn default() -> (r: ResourceChecksum)
        ensures
            r@ == Seq::new(16, |i: int| 0u8),
    {
        let r = ResourceChecksum([0u8; 16]);
        assert(r@ =~= Seq::new(16, |i: int| 0u8));
        r
    }
}

/// The kind of data a resource holds.
#[derive(Debug, Clone, Copy, PartialEq, Eq, Structural, Hash)]
pub enum ResourceType {
    Unknown,
    // Shader types
    ShaderGLSL,
    ShaderSPIRV,
    ShaderHLSL,
    // Audio types
    AudioFLAC,
    AudioWAV,
    AudioOGG,
    // Image types
    ImagePNG,
    ImageJPEG,
    ImageBMP,
    // Font types
    FontTTF,
    FontOTF,
    // Model types
    ModelOBJ,
    ModelGLTF,
    ModelFBX,
}

impl Default for ResourceType {
    fn default() -> (r: ResourceType)
        ensures
            r == ResourceType::Unknown,
    {
        ResourceType::Unknown
    }
}

/// The header of a resource.
#[derive(Debug, Clone, PartialEq, Eq, Hash)]
pub struct ResourceHeader {
    pub name: String,
    pub tags: Vec<String>,
    pub resource_type: ResourceType,
    pub checksum: ResourceChecksum,
}

/// The header's contents: name, tags, type and checksum.
pub struct ResourceHeaderView {
    pub name: Seq<char>,
    pub tags: Seq<Seq<char>>,
    pub resource_type: ResourceType,
    pub checksum: Seq<u8>,
}

impl View for ResourceHeader {
    type V = ResourceHeaderView;

    open spec fn view(&self) -> ResourceHeaderView {
        ResourceHeaderView {
            name: self.name@,
            tags: self.tags@.map_values(|t: String| t@),
            resource_type: self.resource_type,
            checksum: self.checksum@,
        }
    }
}

impl ResourceHeader {
    /// Whether two headers have the same name, tags, type and checksum.
    pub fn same(&self, other: &ResourceHeader) -> (r: bool)
        ensures
            r == (self@ == other@),
    {
        if self.name != other.name {
            return false;
        }
        if self.tags.len() != other.tags.len() {
            assert(self@.tags.len() != other@.tags.len());
            return false;
        }
        let mut i: usize = 0;
        while i < self.tags.len()
            invariant
                0 <= i <= self.tags.len(),
                self.tags.len() == other.tags.len(),
                forall|j: int| 0 <= j < i ==> self.tags@[j]@ == other.tags@[j]@,
            decreases self.tags.len() - i,
        {
            if self.tags[i] != other.tags[i] {
                assert(self@.tags[i as int] != other@.tags[i as int]);
                return false;
            }
            i = i + 1;
        }
        assert(self@.tags =~= other@.tags);
        if self.resource_type != other.resource_type {
            return false;
        }
        self.checksum.same(&other.checksum)
    }
}

impl Default for ResourceHeader {
    fn default() -> (r: ResourceHeader)
        ensures
            r.name@ == Seq::<char>::empty(),
            r.tags@ == Seq::<String>::empty(),
            r.resource_type == ResourceType::Unknown,
            r.checksum@ == Seq::new(16, |i: int| 0u8),
    {
        ResourceHeader {
            name: String::new(),
            tags: Vec::new(),
            resource_type: ResourceType::Unknown,
            checksum: ResourceChecksum::default(),
        }
    }
}

} // verus!
