//! Resource descriptors and the per-document resource tables.
//!
//! An [`ImageInfo`] identifies one decoded, page-embeddable image (raster or
//! vector) by a stable key; it is created once during asset ingestion and
//! travels through the external layout engine as opaque tagged data.
//! [`FontResources`] is the per-document font table: fonts are registered
//! lazily, at most once per distinct family key.

use vstd::prelude::*;

verus! {

/// Whether an ingested image source decoded as a raster image or as vector
/// markup.
#[derive(Debug, Clone, Copy, PartialEq, Eq, PartialOrd, Ord, Structural)]
pub enum ImageTypeInfo {
    Image,
    Svg,
}

impl Default for ImageTypeInfo {
    fn default() -> (r: Self)
        ensures
            r == ImageTypeInfo::Image,
    {
        ImageTypeInfo::Image
    }
}

/// Descriptor of one ingested image source: the caller's logical name, the
/// stable id of the registered page resource, the kind of decode that
/// succeeded, and the intrinsic dimensions of the decoded image.
#[derive(Debug, Clone, PartialEq, Eq, PartialOrd, Ord)]
pub struct ImageInfo {
    pub original_id: String,
    pub xobject_id: String,
    pub image_type: ImageTypeInfo,
    pub width: usize,
    pub height: usize,
}

/// The mathematical value of an [`ImageInfo`], with strings as character
/// sequences.
pub struct ImageInfoS {
    pub original_id: Seq<char>,
    pub xobject_id: Seq<char>,
    pub image_type: ImageTypeInfo,
    pub width: usize,
    pub height: usize,
}

impl View for ImageInfo {
    type V = ImageInfoS;

    open spec fn view(&self) -> ImageInfoS {
        ImageInfoS {
            original_id: self.original_id@,
            xobject_id: self.xobject_id@,
            image_type: self.image_type,
            width: self.width,
            height: self.height,
        }
    }
}

impl Default for ImageInfo {
    fn default() -> (r: Self)
        ensures
            r@.original_id == Seq::<char>::empty(),
            r@.xobject_id == Seq::<char>::empty(),
            r@.image_type == ImageTypeInfo::Image,
            r@.width == 0,
            r@.height == 0,
    {
        ImageInfo {
            original_id: String::new(),
            xobject_id: String::new(),
            image_type: ImageTypeInfo::Image,
            width: 0,
            height: 0,
        }
    }
}

/// Configuration for one render: raw image and font payloads keyed by their
/// logical names, and the page size. Lengths use the translator's single
/// linear unit; the vertical flip pivots around `page_height`.
#[derive(Debug, Clone)]
pub struct XmlRenderOptions {
    pub images: Vec<(String, Vec<u8>)>,
    pub fonts: Vec<(String, Vec<u8>)>,
    pub page_width: i64,
    pub page_height: i64,
}

impl Default for XmlRenderOptions {
    fn default() -> (r: Self)
        ensures
            r.images@ == Seq::<(String, Vec<u8>)>::empty(),
            r.fonts@ == Seq::<(String, Vec<u8>)>::empty(),
            r.page_width == 210,
            r.page_height == 297,
    {
        XmlRenderOptions {
            images: Vec::new(),
            fonts: Vec::new(),
            page_width: 210,
            page_height: 297,
        }
    }
}

/// Which font-family keys can be decoded in this document: the decode oracle.
/// Decoding a font payload is deterministic, so whether a key decodes is a
/// fixed fact per render; the emitter consults it when a text node first
/// needs the key.
pub struct FontSource {
    pub available: Vec<u64>,
}

impl FontSource {
    /// Whether the font behind `key` decodes successfully.
    pub fn can_decode(&self, key: u64) -> (r: bool)
        ensures
            r == self.available@.contains(key),
    {
        let mut i: usize = 0;
        while i < self.available.len()
            invariant
                0 <= i <= self.available@.len(),
                forall|j: int| 0 <= j < i ==> self.available@[j] != key,
            decreases self.available@.len() - i,
        {
            if self.available[i] == key {
                return true;
            }
            i = i + 1;
        }
        false
    }
}

/// The per-document font table. `registered` lists the family keys whose
/// fonts are embedded, in registration order; `decode_log` records every
/// decode attempt, so that deduplication (at most one decode per decodable
/// key) is a visible property of the table.
pub struct FontResources {
    pub registered: Vec<u64>,
    pub decode_log: Vec<u64>,
}

/// No key is registered twice: first-writer-wins, never overwritten.
pub open spec fn registered_unique(registered: Seq<u64>) -> bool {
    forall|i: int, j: int|
        0 <= i < j < registered.len() ==> registered[i] != registered[j]
}

impl FontResources {
    /// An empty table, the state at the start of a render.
    pub fn new() -> (r: Self)
        ensures
            r.registered@ == Seq::<u64>::empty(),
            r.decode_log@ == Seq::<u64>::empty(),
    {
        FontResources { registered: Vec::new(), decode_log: Vec::new() }
    }

    /// Whether the font for `key` is already embedded in the document.
    pub fn is_registered(&self, key: u64) -> (r: bool)
        ensures
            r == self.registered@.contains(key),
    {
        let mut i: usize = 0;
        while i < self.registered.len()
            invariant
                0 <= i <= self.registered@.len(),
                forall|j: int| 0 <= j < i ==> self.registered@[j] != key,
            decreases self.registered@.len() - i,
        {
            if self.registered[i] == key {
                return true;
            }
            i = i + 1;
        }
        false
    }
}

} // verus!
