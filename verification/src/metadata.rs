//! Metadata entries and named payloads of a container.

use vstd::prelude::*;

verus! {

/// Width of the footer in bytes: the metadata offset as zero-padded decimal.
pub const METADATA_OFFSET_SIZE: usize = 16;

/// Reserved name of the entry that holds the serialized manifest.
pub const MANIFEST_NAME: &'static str = "manifest";

/// Metadata entry for one payload of the package.
#[derive(Debug)]
pub struct MetadataEntry {
    /// Unique name of the payload.
    pub name: String,
    /// Absolute position in the container where the payload begins.
    pub offset: u64,
    /// Length of the payload in bytes.
    pub size: u64,
}

/// Mathematical model of a [`MetadataEntry`].
pub struct EntryView {
    pub name: Seq<char>,
    pub offset: nat,
    pub size: nat,
}

impl View for MetadataEntry {
    type V = EntryView;

    open spec fn view(&self) -> EntryView {
        EntryView { name: self.name@, offset: self.offset as nat, size: self.size as nat }
    }
}

/// A named payload.
#[derive(Debug)]
pub struct Blob {
    /// Name under which the payload is stored.
    pub name: String,
    /// The payload itself.
    pub data: Vec<u8>,
}

/// Mathematical model of a [`Blob`].
pub struct BlobView {
    pub name: Seq<char>,
    pub data: Seq<u8>,
}

impl View for Blob {
    type V = BlobView;

    open spec fn view(&self) -> BlobView {
        BlobView { name: self.name@, data: self.data@ }
    }
}

/// The models of a sequence of entries.
pub open spec fn entry_views(entries: Seq<MetadataEntry>) -> Seq<EntryView> {
    entries.map_values(|e: MetadataEntry| e@)
}

/// The models of a sequence of blobs.
pub open spec fn blob_views(blobs: Seq<Blob>) -> Seq<BlobView> {
    blobs.map_values(|b: Blob| b@)
}

/// The name of the reserved manifest entry, as a sequence of characters.
pub open spec fn manifest_name() -> Seq<char> {
    MANIFEST_NAME@
}

/// Whether `name` is the reserved manifest name.
pub fn is_manifest_name(name: &String) -> (b: bool)
    ensures
        b == (name@ == manifest_name()),
{
    let reserved = MANIFEST_NAME.to_owned();
    *name == reserved
}

impl MetadataEntry {
    /// An entry for the payload `name` of `size` bytes that begins at `offset`.
    pub fn new(name: String, offset: u64, size: u64) -> (e: MetadataEntry)
        ensures
            e@ == (EntryView { name: name@, offset: offset as nat, size: size as nat }),
    {
        MetadataEntry { name, offset, size }
    }
}

impl Blob {
    /// A payload stored under `name`.
    pub fn new(name: String, data: Vec<u8>) -> (b: Blob)
        ensures
            b@ == (BlobView { name: name@, data: data@ }),
    {
        Blob { name, data }
    }
}

} // verus!
