//! The container reader and the package it yields.

use crate::bytes::copy_range;
use crate::container::{
    all_in_bounds, distinct, drop_manifest, entry_names, extract_spec, footer_of, footer_width,
    in_bounds, pick_manifest, slice_of, sliced, table_start, ExtractError, PartsView,
};
use crate::exe_packager::SetupManifest;
use crate::footer::decode_footer;
use crate::metadata::{
    blob_views, entry_views, is_manifest_name, Blob, BlobView, MetadataEntry,
    METADATA_OFFSET_SIZE,
};
use crate::webview2::WEBVIEW2_EVERGREEN_EXE;
use vstd::prelude::*;
use vstd::slice::{slice_subrange, slice_to_vec};

verus! {

/// The raw contents of a container: the serialized manifest and the other
/// payloads, in table order.
#[derive(Debug)]
pub struct PackageParts {
    pub manifest: Vec<u8>,
    pub files: Vec<Blob>,
}

impl View for PackageParts {
    type V = PartsView;

    open spec fn view(&self) -> PartsView {
        PartsView { manifest: self.manifest@, files: blob_views(self.files@) }
    }
}

/// A package containing files and a manifest.
#[derive(Debug)]
pub struct SetupPackage {
    pub files: Vec<Blob>,
    pub manifest: SetupManifest,
}

/// The payload stored under `name`: that of the first blob so named.
pub open spec fn lookup(files: Seq<BlobView>, name: Seq<char>) -> Option<Seq<u8>>
    decreases files.len(),
{
    if files.len() == 0 {
        None
    } else if files[0].name == name {
        Some(files[0].data)
    } else {
        lookup(files.drop_first(), name)
    }
}

/// A name is found exactly when some blob bears it.
pub proof fn lemma_lookup_found(files: Seq<BlobView>, name: Seq<char>)
    ensures
        lookup(files, name) is Some <==> exists|i: int|
            0 <= i < files.len() && #[trigger] files[i].name == name,
    decreases files.len(),
{
    if files.len() > 0 {
        let rest = files.drop_first();
        lemma_lookup_found(rest, name);
        if files[0].name != name {
            if lookup(rest, name) is Some {
                let i = choose|i: int| 0 <= i < rest.len() && #[trigger] rest[i].name == name;
                assert(files[i + 1].name == name);
            }
            if exists|i: int| 0 <= i < files.len() && #[trigger] files[i].name == name {
                let i = choose|i: int| 0 <= i < files.len() && #[trigger] files[i].name == name;
                assert(rest[i - 1].name == name);
            }
        }
    }
}

/// Where names are distinct, a name leads to the payload of the one blob
/// that bears it.
pub proof fn lemma_lookup_unique(files: Seq<BlobView>, i: int)
    requires
        0 <= i < files.len(),
        forall|a: int, b: int| 0 <= a < b < files.len() ==> files[a].name != files[b].name,
    ensures
        lookup(files, files[i].name) == Some(files[i].data),
    decreases files.len(),
{
    if i > 0 {
        let rest = files.drop_first();
        assert(files[0].name != files[i].name);
        assert forall|a: int, b: int| 0 <= a < b < rest.len() implies rest[a].name
            != rest[b].name by {
            assert(files[a + 1].name != files[b + 1].name);
        }
        lemma_lookup_unique(rest, i - 1);
    }
}

/// Locates the serialized metadata table of `file` by its footer: the table
/// lies from the first position returned up to, not including, the second,
/// where the footer begins.
///
/// Fails with `Format` where the file is shorter than the footer, where the
/// footer is not sixteen decimal digits, and where it points beyond its own
/// beginning.
pub fn metadata_span(file: &[u8]) -> (r: Result<(usize, usize), ExtractError>)
    ensures
        match r {
            Ok(span) => table_start(file@) == Ok::<nat, ExtractError>(span.0 as nat) && span.1
                == file@.len() - footer_width(),
            Err(e) => table_start(file@) == Err::<nat, ExtractError>(e),
        },
{
    let len = file.len();
    if len < METADATA_OFFSET_SIZE {
        return Err(ExtractError::Format);
    }
    let end = len - METADATA_OFFSET_SIZE;
    let footer = slice_subrange(file, end, len);
    assert(footer@ == footer_of(file@));
    match decode_footer(footer) {
        Err(e) => Err(e),
        Ok(start) => {
            if start > end as u64 {
                Err(ExtractError::Format)
            } else {
                Ok((start as usize, end))
            }
        },
    }
}

/// Whether two of `entries` share a name.
#[verifier::loop_isolation(false)]
fn has_duplicate_entries(entries: &Vec<MetadataEntry>) -> (b: bool)
    ensures
        b == !distinct(entry_names(entry_views(entries@))),
{
    let ghost names = entry_names(entry_views(entries@));
    let n = entries.len();
    let mut i: usize = 0;
    while i < n
        invariant
            0 <= i <= n,
            forall|a: int, b: int| 0 <= a < b < n && a < i ==> names[a] != names[b],
        decreases n - i,
    {
        let mut j: usize = i + 1;
        while j < n
            invariant
                i < j <= n,
                forall|b: int| i < b < j ==> names[i as int] != names[b],
            decreases n - j,
        {
            if entries[i].name == entries[j].name {
                assert(names[i as int] == names[j as int]);
                return true;
            }
            j = j + 1;
        }
        i = i + 1;
    }
    false
}

/// Reads the payloads of `file` that `entries`, its decoded metadata table,
/// describe.
///
/// Fails with `Format` where the footer is malformed (see
/// [`metadata_span`]), where a payload would end beyond the position at which
/// the table begins, and where two entries share a name; otherwise with
/// `MissingManifest` where no entry bears the manifest's name. On success
/// the manifest is the payload of that entry, and the files are the payloads of
/// the other entries in table order.
#[verifier::loop_isolation(false)]
pub fn extract_package(file: &[u8], entries: &Vec<MetadataEntry>) -> (r: Result<
    PackageParts,
    ExtractError,
>)
    ensures
        match r {
            Ok(parts) => extract_spec(file@, entry_views(entries@)) == Ok::<
                PartsView,
                ExtractError,
            >(parts@),
            Err(e) => extract_spec(file@, entry_views(entries@)) == Err::<PartsView, ExtractError>(
                e,
            ),
        },
{
    let start = match metadata_span(file) {
        Err(e) => {
            return Err(e);
        },
        Ok(span) => span.0,
    };
    let ghost views = entry_views(entries@);
    let ghost items = sliced(file@, views);
    let n = entries.len();
    let limit = start as u64;
    let mut k: usize = 0;
    while k < n
        invariant
            0 <= k <= n,
            forall|i: int| 0 <= i < k ==> in_bounds(#[trigger] views[i], start as nat),
        decreases n - k,
    {
        let e = &entries[k];
        if e.size > limit || e.offset > limit - e.size {
            assert(!in_bounds(views[k as int], start as nat));
            return Err(ExtractError::Format);
        }
        k = k + 1;
    }
    assert(all_in_bounds(views, start as nat));
    if has_duplicate_entries(entries) {
        return Err(ExtractError::Format);
    }
    let mut manifest: Option<Vec<u8>> = None;
    let mut files: Vec<Blob> = Vec::new();
    let mut i: usize = 0;
    assert(blob_views(files@) =~= drop_manifest(items.take(0)));
    while i < n
        invariant
            0 <= i <= n,
            match manifest {
                Some(m) => pick_manifest(items.take(i as int)) == Some(m@),
                None => pick_manifest(items.take(i as int)) is None,
            },
            blob_views(files@) == drop_manifest(items.take(i as int)),
        decreases n - i,
    {
        let e = &entries[i];
        assert(in_bounds(views[i as int], start as nat));
        let from = e.offset as usize;
        let to = (e.offset + e.size) as usize;
        let data = copy_range(file, from, to);
        proof {
            assert(items.take(i + 1).drop_last() =~= items.take(i as int));
            assert(items.take(i + 1).last() == items[i as int]);
            assert(data@ == slice_of(file@, views[i as int]));
        }
        if is_manifest_name(&e.name) {
            manifest = Some(data);
        } else {
            let ghost earlier = files@;
            let blob = Blob { name: e.name.clone(), data };
            assert(blob@ == items[i as int]);
            files.push(blob);
            assert(blob_views(files@) =~= blob_views(earlier).push(items[i as int]));
        }
        i = i + 1;
    }
    assert(items.take(n as int) =~= items);
    match manifest {
        None => Err(ExtractError::MissingManifest),
        Some(m) => Ok(PackageParts { manifest: m, files }),
    }
}

impl SetupPackage {
    /// A package of `files` described by `manifest`.
    pub fn new(manifest: SetupManifest, files: Vec<Blob>) -> (p: SetupPackage)
        ensures
            p.manifest == manifest,
            p.files == files,
    {
        SetupPackage { files, manifest }
    }

    /// The files of the package as named payloads.
    pub open spec fn contents(&self) -> Seq<BlobView> {
        blob_views(self.files@)
    }

    /// The payload stored under `filename`, if there is one.
    pub fn find_file(&self, filename: &str) -> (r: Option<Vec<u8>>)
        ensures
            match r {
                Some(data) => lookup(self.contents(), filename@) == Some(data@),
                None => lookup(self.contents(), filename@) is None,
            },
    {
        let wanted = filename.to_owned();
        let ghost all = self.contents();
        let mut i: usize = 0;
        assert(all.skip(0) =~= all);
        while i < self.files.len()
            invariant
                0 <= i <= self.files.len(),
                all == self.contents(),
                wanted@ == filename@,
                lookup(all, filename@) == lookup(all.skip(i as int), filename@),
            decreases self.files.len() - i,
        {
            let ghost rest = all.skip(i as int);
            assert(rest[0] == self.files@[i as int]@);
            assert(rest.drop_first() =~= all.skip(i + 1));
            if self.files[i].name == wanted {
                let data = slice_to_vec(self.files[i].data.as_slice());
                return Some(data);
            }
            i = i + 1;
        }
        None
    }

    /// Whether the package holds a file named `filename`.
    pub fn contains_file(&self, filename: &str) -> (b: bool)
        ensures
            b <==> exists|i: int|
                0 <= i < self.contents().len() && #[trigger] self.contents()[i].name == filename@,
            b == lookup(self.contents(), filename@) is Some,
    {
        proof {
            lemma_lookup_found(self.contents(), filename@);
        }
        self.find_file(filename).is_some()
    }

    /// Extracts a file from the package.
    pub fn get_file(&self, filename: &str) -> (data: Vec<u8>)
        requires
            lookup(self.contents(), filename@) is Some,
        ensures
            lookup(self.contents(), filename@) == Some(data@),
    {
        match self.find_file(filename) {
            Some(data) => data,
            None => Vec::new(),
        }
    }

    /// The application's executable: the file that the manifest names.
    pub fn get_application(&self) -> (data: Vec<u8>)
        requires
            lookup(self.contents(), self.manifest.application@) is Some,
        ensures
            lookup(self.contents(), self.manifest.application@) == Some(data@),
    {
        self.get_file(self.manifest.application.as_str())
    }

    /// The bundled WebView2 bootstrapper, if the package holds one.
    pub fn get_webview2(&self) -> (r: Option<Vec<u8>>)
        ensures
            match r {
                Some(data) => lookup(self.contents(), WEBVIEW2_EVERGREEN_EXE@) == Some(data@),
                None => lookup(self.contents(), WEBVIEW2_EVERGREEN_EXE@) is None,
            },
    {
        self.find_file(WEBVIEW2_EVERGREEN_EXE)
    }

    /// The name under which a WebView2 bootstrapper is bundled.
    pub fn webview2_filename(&self) -> (name: String)
        ensures
            name@ == WEBVIEW2_EVERGREEN_EXE@,
    {
        WEBVIEW2_EVERGREEN_EXE.to_owned()
    }
}

} // verus!
