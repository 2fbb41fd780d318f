//! The container writer.

use crate::bytes::append_bytes;
use crate::container::{
    container, distinct, footer_limit, layout_spec, lemma_payload_prefix, lemma_payload_step,
    names_of, pack_spec, payload, table_entries, with_manifest, PackError,
};
use crate::footer::{encode_footer, lemma_footer_limit, FOOTER_LIMIT};
use crate::metadata::{
    blob_views, entry_views, is_manifest_name, manifest_name, Blob, BlobView, EntryView,
    MetadataEntry, MANIFEST_NAME,
};
use vstd::prelude::*;

verus! {

/// Identifies the product and names the payload that is its main executable.
#[derive(Debug)]
pub struct SetupManifest {
    pub name: String,
    pub title: String,
    pub version: String,
    pub identifier: String,
    pub application: String,
}

/// Mathematical model of a [`SetupManifest`].
pub struct ManifestView {
    pub name: Seq<char>,
    pub title: Seq<char>,
    pub version: Seq<char>,
    pub identifier: Seq<char>,
    pub application: Seq<char>,
}

impl View for SetupManifest {
    type V = ManifestView;

    open spec fn view(&self) -> ManifestView {
        ManifestView {
            name: self.name@,
            title: self.title@,
            version: self.version@,
            identifier: self.identifier@,
            application: self.application@,
        }
    }
}

/// A packager for bundling files with an executable.
///
/// Files are kept in the order in which they were added and are written in
/// that order. Names are not checked when a file is added: a name that occurs
/// twice makes [`ExePackager::package`] fail.
pub struct ExePackager {
    exe_data: Vec<u8>,
    files: Vec<Blob>,
    manifest: Option<Vec<u8>>,
}

/// Mathematical model of an [`ExePackager`].
pub struct PackagerView {
    pub stub: Seq<u8>,
    pub files: Seq<BlobView>,
    pub manifest: Option<Seq<u8>>,
}

impl View for ExePackager {
    type V = PackagerView;

    closed spec fn view(&self) -> PackagerView {
        PackagerView {
            stub: self.exe_data@,
            files: blob_views(self.files@),
            manifest: match self.manifest {
                Some(m) => Some(m@),
                None => None,
            },
        }
    }
}

/// With an explicit manifest, the names are distinct exactly when the files'
/// names are distinct and none of them is the manifest's.
pub proof fn lemma_distinct_with_manifest(m: Seq<u8>, files: Seq<BlobView>)
    ensures
        distinct(names_of(with_manifest(Some(m), files))) <==> distinct(names_of(files)) && (forall|
            i: int,
        | 0 <= i < files.len() ==> (#[trigger] files[i]).name != manifest_name()),
{
    let all = with_manifest(Some(m), files);
    let names = names_of(all);
    let plain = names_of(files);
    assert(names[0] == manifest_name());
    assert forall|i: int| 0 <= i < files.len() implies #[trigger] names[i + 1]
        == files[i].name by {}
    if distinct(names) {
        assert forall|i: int, j: int| 0 <= i < j < plain.len() implies plain[i] != plain[j] by {
            assert(names[i + 1] != names[j + 1]);
        }
        assert forall|i: int| 0 <= i < files.len() implies (#[trigger] files[i]).name
            != manifest_name() by {
            assert(names[0] != names[i + 1]);
        }
    }
    if distinct(plain) && (forall|i: int|
        0 <= i < files.len() ==> (#[trigger] files[i]).name != manifest_name()) {
        assert forall|i: int, j: int| 0 <= i < j < names.len() implies names[i] != names[j] by {
            if i == 0 {
                assert(names[j] == files[j - 1].name);
            } else {
                assert(names[i] == plain[i - 1]);
                assert(names[j] == plain[j - 1]);
            }
        }
    }
}

impl ExePackager {
    /// Creates a new packager with the given executable data, no files and no
    /// manifest.
    pub fn new(exe_data: Vec<u8>) -> (p: ExePackager)
        ensures
            p@ == (PackagerView { stub: exe_data@, files: Seq::empty(), manifest: None }),
    {
        let p = ExePackager { exe_data, files: Vec::new(), manifest: None };
        assert(p@.files =~= Seq::empty());
        p
    }

    /// Adds a file to be packaged with the executable, after those added
    /// before.
    pub fn add_file(&mut self, filename: &str, file_data: Vec<u8>)
        ensures
            final(self)@ == (PackagerView {
                files: old(self)@.files.push(BlobView { name: filename@, data: file_data@ }),
                ..old(self)@
            }),
    {
        let blob = Blob { name: filename.to_owned(), data: file_data };
        self.files.push(blob);
        assert(self@.files =~= old(self)@.files.push(
            BlobView { name: filename@, data: file_data@ },
        ));
    }

    /// Sets the serialized manifest to be packaged with the executable,
    /// replacing an earlier one.
    pub fn add_manifest(&mut self, manifest_data: Vec<u8>)
        ensures
            final(self)@ == (PackagerView { manifest: Some(manifest_data@), ..old(self)@ }),
    {
        self.manifest = Some(manifest_data);
    }

    /// Whether a file was added under `filename`.
    pub fn has_file(&self, filename: &str) -> (b: bool)
        ensures
            b <==> exists|i: int|
                0 <= i < self@.files.len() && #[trigger] self@.files[i].name == filename@,
    {
        let wanted = filename.to_owned();
        let mut i: usize = 0;
        while i < self.files.len()
            invariant
                0 <= i <= self.files.len(),
                wanted@ == filename@,
                forall|k: int| 0 <= k < i ==> #[trigger] self@.files[k].name != filename@,
            decreases self.files.len() - i,
        {
            if self.files[i].name == wanted {
                assert(self@.files[i as int].name == filename@);
                return true;
            }
            i = i + 1;
        }
        false
    }

    /// Whether a manifest was set.
    pub fn has_manifest(&self) -> (b: bool)
        ensures
            b == self@.manifest is Some,
    {
        self.manifest.is_some()
    }

    /// Whether a name occurs twice among the manifest and the files.
    #[verifier::loop_isolation(false)]
    fn has_duplicate_names(&self) -> (b: bool)
        ensures
            b == !distinct(names_of(with_manifest(self@.manifest, self@.files))),
    {
        let ghost files = self@.files;
        let ghost plain = names_of(files);
        let n = self.files.len();
        if self.manifest.is_some() {
            proof {
                lemma_distinct_with_manifest(self@.manifest->0, files);
            }
            let mut k: usize = 0;
            while k < n
                invariant
                    0 <= k <= n,
                    n == self.files.len(),
                    files == self@.files,
                    forall|i: int| 0 <= i < k ==> (#[trigger] files[i]).name != manifest_name(),
                decreases n - k,
            {
                if is_manifest_name(&self.files[k].name) {
                    assert(files[k as int].name == manifest_name());
                    return true;
                }
                k = k + 1;
            }
        }
        let mut i: usize = 0;
        while i < n
            invariant
                0 <= i <= n,
                n == self.files.len(),
                files == self@.files,
                plain == names_of(files),
                forall|a: int, b: int| 0 <= a < b < n && a < i ==> plain[a] != plain[b],
            decreases n - i,
        {
            let mut j: usize = i + 1;
            while j < n
                invariant
                    i < j <= n,
                    n == self.files.len(),
                    files == self@.files,
                    plain == names_of(files),
                    forall|b: int| i < b < j ==> plain[i as int] != plain[b],
                decreases n - j,
            {
                if self.files[i].name == self.files[j].name {
                    assert(plain[i as int] == plain[j as int]);
                    return true;
                }
                j = j + 1;
            }
            i = i + 1;
        }
        assert(distinct(plain));
        false
    }

    /// The metadata entries of the container that [`ExePackager::package`]
    /// writes: the manifest first, where there is one, then the files in the
    /// order in which they were added, each beginning where the one before it
    /// ended.
    ///
    /// Fails with `DuplicateName` where a name occurs twice, and otherwise with
    /// `Write` where the table would begin at or beyond `FOOTER_LIMIT`.
    #[verifier::loop_isolation(false)]
    pub fn entries(&self) -> (r: Result<Vec<MetadataEntry>, PackError>)
        ensures
            match r {
                Ok(es) => layout_spec(self@.stub.len(), self@.manifest, self@.files) == Ok::<
                    Seq<EntryView>,
                    PackError,
                >(entry_views(es@)),
                Err(e) => layout_spec(self@.stub.len(), self@.manifest, self@.files) == Err::<
                    Seq<EntryView>,
                    PackError,
                >(e),
            },
    {
        if self.has_duplicate_names() {
            return Err(PackError::DuplicateName);
        }
        let ghost blobs = with_manifest(self@.manifest, self@.files);
        let ghost stub_len = self@.stub.len();
        let ghost table = table_entries(stub_len, blobs);
        proof {
            lemma_footer_limit();
            lemma_payload_prefix(blobs, 0);
            assert(payload(blobs.take(0)) =~= Seq::<u8>::empty());
        }
        let start = self.exe_data.len() as u64;
        if start >= FOOTER_LIMIT {
            return Err(PackError::Write);
        }
        let mut cursor: u64 = start;
        let mut out: Vec<MetadataEntry> = Vec::new();
        let ghost mut shift: int = 0;
        assert(entry_views(out@) =~= table.take(0));
        match &self.manifest {
            Some(m) => {
                let size = m.len() as u64;
                proof {
                    lemma_payload_step(blobs, 0);
                    lemma_payload_prefix(blobs, 1);
                }
                if size >= FOOTER_LIMIT - cursor {
                    return Err(PackError::Write);
                }
                out.push(MetadataEntry { name: MANIFEST_NAME.to_owned(), offset: cursor, size });
                cursor = cursor + size;
                proof {
                    shift = 1;
                    assert(entry_views(out@) =~= table.take(1));
                }
            },
            None => {},
        }
        let n = self.files.len();
        let mut i: usize = 0;
        while i < n
            invariant
                0 <= i <= n,
                n == self.files.len(),
                blobs == with_manifest(self@.manifest, self@.files),
                shift == (if self@.manifest is Some { 1int } else { 0int }),
                blobs.len() == shift + n,
                stub_len == self@.stub.len(),
                table == table_entries(stub_len, blobs),
                cursor == stub_len + payload(blobs.take(shift + i)).len(),
                cursor < FOOTER_LIMIT,
                footer_limit() == FOOTER_LIMIT,
                entry_views(out@) == table.take(shift + i),
            decreases n - i,
        {
            let file = &self.files[i];
            let size = file.data.len() as u64;
            proof {
                assert(blobs[shift + i] == self@.files[i as int]);
                lemma_payload_step(blobs, shift + i);
                lemma_payload_prefix(blobs, shift + i + 1);
            }
            if size >= FOOTER_LIMIT - cursor {
                return Err(PackError::Write);
            }
            let ghost earlier = out@;
            let entry = MetadataEntry { name: file.name.clone(), offset: cursor, size };
            assert(entry@ == table[shift + i]);
            out.push(entry);
            cursor = cursor + size;
            i = i + 1;
            proof {
                assert forall|k: int| 0 <= k < shift + i implies entry_views(out@)[k]
                    == table[k] by {
                    if k < shift + i - 1 {
                        assert(entry_views(earlier)[k] == table.take(shift + i - 1)[k]);
                    }
                }
                assert(entry_views(out@) =~= table.take(shift + i));
            }
        }
        proof {
            assert(blobs.take(shift + n) =~= blobs);
            assert(table.take(shift + n) =~= table);
        }
        Ok(out)
    }

    /// Writes the container: the executable, the manifest where there is one,
    /// the files in the order in which they were added, then `table` (the
    /// serialized form of [`ExePackager::entries`]) and the sixteen-digit
    /// footer that gives the position where `table` begins.
    ///
    /// Fails with `DuplicateName` where a name occurs twice, and otherwise with
    /// `Write` where the table would begin at or beyond `FOOTER_LIMIT`. Nothing
    /// is produced on failure.
    pub fn package(&self, table: &[u8]) -> (r: Result<Vec<u8>, PackError>)
        ensures
            match r {
                Ok(file) => pack_spec(self@.stub, self@.manifest, self@.files, table@) == Ok::<
                    Seq<u8>,
                    PackError,
                >(file@),
                Err(e) => pack_spec(self@.stub, self@.manifest, self@.files, table@) == Err::<
                    Seq<u8>,
                    PackError,
                >(e),
            },
    {
        match self.entries() {
            Err(e) => {
                return Err(e);
            },
            Ok(_) => {},
        }
        let ghost blobs = with_manifest(self@.manifest, self@.files);
        let ghost stub = self@.stub;
        let mut out: Vec<u8> = Vec::new();
        append_bytes(&mut out, self.exe_data.as_slice());
        let ghost mut shift: int = 0;
        proof {
            assert(payload(blobs.take(0)) =~= Seq::<u8>::empty());
            assert(out@ =~= stub + payload(blobs.take(0)));
        }
        match &self.manifest {
            Some(m) => {
                append_bytes(&mut out, m.as_slice());
                proof {
                    shift = 1;
                    lemma_payload_step(blobs, 0);
                    assert(out@ =~= stub + payload(blobs.take(1)));
                }
            },
            None => {},
        }
        let n = self.files.len();
        let mut i: usize = 0;
        while i < n
            invariant
                0 <= i <= n,
                n == self.files.len(),
                blobs == with_manifest(self@.manifest, self@.files),
                shift == (if self@.manifest is Some { 1int } else { 0int }),
                blobs.len() == shift + n,
                stub == self@.stub,
                out@ == stub + payload(blobs.take(shift + i)),
            decreases n - i,
        {
            let ghost before = out@;
            append_bytes(&mut out, self.files[i].data.as_slice());
            proof {
                assert(blobs[shift + i] == self@.files[i as int]);
                lemma_payload_step(blobs, shift + i);
                assert(out@ =~= stub + payload(blobs.take(shift + i + 1)));
            }
            i = i + 1;
        }
        proof {
            assert(blobs.take(shift + n) =~= blobs);
        }
        let footer = match encode_footer(out.len() as u64) {
            Err(e) => {
                return Err(e);
            },
            Ok(footer) => footer,
        };
        append_bytes(&mut out, table);
        append_bytes(&mut out, footer.as_slice());
        proof {
            assert(out@ =~= container(stub, blobs, table@));
        }
        Ok(out)
    }
}

} // verus!
