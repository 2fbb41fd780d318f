//! The container format, stated over sequences of bytes.
//!
//! A container is the stub executable, followed by every payload in write
//! order, followed by the serialized metadata table, followed by a footer of
//! sixteen decimal digits that gives the position where the table begins.
//! The table's own encoding is not this module's concern: the writer takes it
//! as bytes and the reader takes the decoded entries.

use crate::decimal::{
    all_digits, decimal, digits_value, lemma_decimal_round_trip, lemma_decimal_shape, pow10,
};
use crate::metadata::{manifest_name, BlobView, EntryView};
use vstd::prelude::*;

verus! {

/// Why a container could not be written.
#[derive(Debug, Clone, Copy, PartialEq, Eq, Structural)]
pub enum PackError {
    /// Two payloads, the manifest included, share a name.
    DuplicateName,
    /// The output cannot be written: the table would begin at a position
    /// that the footer cannot hold.
    Write,
}

/// Why a container could not be read.
#[derive(Debug, Clone, Copy, PartialEq, Eq, Structural)]
pub enum ExtractError {
    /// The footer, the table or an entry is malformed.
    Format,
    /// The container is well formed but holds no manifest.
    MissingManifest,
}

/// What a well-formed container yields: the serialized manifest and the other
/// payloads in table order.
pub struct PartsView {
    pub manifest: Seq<u8>,
    pub files: Seq<BlobView>,
}

/// Width of the footer.
pub open spec fn footer_width() -> nat {
    16
}

/// The first table position that the footer cannot express.
pub open spec fn footer_limit() -> nat {
    pow10(footer_width())
}

/// The payloads of `blobs`, one after another.
pub open spec fn payload(blobs: Seq<BlobView>) -> Seq<u8>
    decreases blobs.len(),
{
    if blobs.len() == 0 {
        Seq::empty()
    } else {
        payload(blobs.drop_last()) + blobs.last().data
    }
}

/// The names of `blobs`, in order.
pub open spec fn names_of(blobs: Seq<BlobView>) -> Seq<Seq<char>> {
    blobs.map_values(|b: BlobView| b.name)
}

/// The names of `entries`, in order.
pub open spec fn entry_names(entries: Seq<EntryView>) -> Seq<Seq<char>> {
    entries.map_values(|e: EntryView| e.name)
}

/// Whether no name occurs twice.
pub open spec fn distinct(names: Seq<Seq<char>>) -> bool {
    forall|i: int, j: int| 0 <= i < j < names.len() ==> names[i] != names[j]
}

/// Everything that is written after the stub: the manifest, where there is
/// one, under its reserved name, and then the files.
pub open spec fn with_manifest(manifest: Option<Seq<u8>>, files: Seq<BlobView>) -> Seq<BlobView> {
    match manifest {
        Some(m) => seq![BlobView { name: manifest_name(), data: m }] + files,
        None => files,
    }
}

/// The metadata table of `blobs` written from position `start` on: each
/// payload begins where the one before it ended.
pub open spec fn table_entries(start: nat, blobs: Seq<BlobView>) -> Seq<EntryView> {
    Seq::new(
        blobs.len(),
        |i: int|
            EntryView {
                name: blobs[i].name,
                offset: start + payload(blobs.take(i)).len(),
                size: blobs[i].data.len(),
            },
    )
}

/// The container that holds `blobs` after `stub`, with `table` as the
/// serialized metadata table.
pub open spec fn container(stub: Seq<u8>, blobs: Seq<BlobView>, table: Seq<u8>) -> Seq<u8> {
    stub + payload(blobs) + table + decimal(
        (stub.len() + payload(blobs).len()) as nat,
        footer_width(),
    )
}

/// The metadata entries that the writer records, or the reason why nothing
/// can be written.
pub open spec fn layout_spec(
    stub_len: nat,
    manifest: Option<Seq<u8>>,
    files: Seq<BlobView>,
) -> Result<Seq<EntryView>, PackError> {
    let blobs = with_manifest(manifest, files);
    if !distinct(names_of(blobs)) {
        Err(PackError::DuplicateName)
    } else if stub_len + payload(blobs).len() >= footer_limit() {
        Err(PackError::Write)
    } else {
        Ok(table_entries(stub_len, blobs))
    }
}

/// The container that the writer produces, or the reason why it produces none.
pub open spec fn pack_spec(
    stub: Seq<u8>,
    manifest: Option<Seq<u8>>,
    files: Seq<BlobView>,
    table: Seq<u8>,
) -> Result<Seq<u8>, PackError> {
    let blobs = with_manifest(manifest, files);
    if !distinct(names_of(blobs)) {
        Err(PackError::DuplicateName)
    } else if stub.len() + payload(blobs).len() >= footer_limit() {
        Err(PackError::Write)
    } else {
        Ok(container(stub, blobs, table))
    }
}

/// The last sixteen bytes of `file`. Meaningful where `file` has that many.
pub open spec fn footer_of(file: Seq<u8>) -> Seq<u8> {
    file.subrange(file.len() - footer_width(), file.len() as int)
}

/// Where the metadata table of `file` begins, by its footer.
pub open spec fn table_start(file: Seq<u8>) -> Result<nat, ExtractError> {
    if file.len() < footer_width() {
        Err(ExtractError::Format)
    } else if !all_digits(footer_of(file)) {
        Err(ExtractError::Format)
    } else if digits_value(footer_of(file)) > file.len() - footer_width() {
        Err(ExtractError::Format)
    } else {
        Ok(digits_value(footer_of(file)))
    }
}

/// The serialized metadata table of `file`: what lies between the position
/// that the footer gives and the footer. Meaningful where `table_start`
/// succeeds.
pub open spec fn table_bytes(file: Seq<u8>) -> Seq<u8> {
    file.subrange(table_start(file)->Ok_0 as int, file.len() - footer_width())
}

/// Whether the payload of `e` ends at or before `limit`.
pub open spec fn in_bounds(e: EntryView, limit: nat) -> bool {
    e.offset + e.size <= limit
}

/// Whether every payload of `entries` ends at or before `limit`.
pub open spec fn all_in_bounds(entries: Seq<EntryView>, limit: nat) -> bool {
    forall|i: int| 0 <= i < entries.len() ==> in_bounds(#[trigger] entries[i], limit)
}

/// The payload that `e` describes in `file`.
pub open spec fn slice_of(file: Seq<u8>, e: EntryView) -> Seq<u8> {
    file.subrange(e.offset as int, (e.offset + e.size) as int)
}

/// The named payloads that `entries` describe in `file`.
pub open spec fn sliced(file: Seq<u8>, entries: Seq<EntryView>) -> Seq<BlobView> {
    Seq::new(
        entries.len(),
        |i: int| BlobView { name: entries[i].name, data: slice_of(file, entries[i]) },
    )
}

/// The payload stored under the reserved manifest name, if there is one.
pub open spec fn pick_manifest(items: Seq<BlobView>) -> Option<Seq<u8>>
    decreases items.len(),
{
    if items.len() == 0 {
        None
    } else if items.last().name == manifest_name() {
        Some(items.last().data)
    } else {
        pick_manifest(items.drop_last())
    }
}

/// The payloads stored under any other name than the manifest's, in order.
pub open spec fn drop_manifest(items: Seq<BlobView>) -> Seq<BlobView>
    decreases items.len(),
{
    if items.len() == 0 {
        Seq::empty()
    } else if items.last().name == manifest_name() {
        drop_manifest(items.drop_last())
    } else {
        drop_manifest(items.drop_last()).push(items.last())
    }
}

/// What reading `file` with the decoded table `entries` yields.
pub open spec fn extract_spec(file: Seq<u8>, entries: Seq<EntryView>) -> Result<
    PartsView,
    ExtractError,
> {
    match table_start(file) {
        Err(e) => Err(e),
        Ok(start) => {
            if !all_in_bounds(entries, start) || !distinct(entry_names(entries)) {
                Err(ExtractError::Format)
            } else {
                match pick_manifest(sliced(file, entries)) {
                    None => Err(ExtractError::MissingManifest),
                    Some(m) => Ok(
                        PartsView { manifest: m, files: drop_manifest(sliced(file, entries)) },
                    ),
                }
            }
        },
    }
}

/// Taking one more blob appends its payload.
pub proof fn lemma_payload_step(blobs: Seq<BlobView>, i: int)
    requires
        0 <= i < blobs.len(),
    ensures
        payload(blobs.take(i + 1)) == payload(blobs.take(i)) + blobs[i].data,
{
    assert(blobs.take(i + 1).drop_last() =~= blobs.take(i));
}

/// The payloads of the first `i` blobs are a prefix of the whole payload.
pub proof fn lemma_payload_prefix(blobs: Seq<BlobView>, i: int)
    requires
        0 <= i <= blobs.len(),
    ensures
        payload(blobs.take(i)).len() <= payload(blobs).len(),
        payload(blobs).subrange(0, payload(blobs.take(i)).len() as int) == payload(blobs.take(i)),
    decreases blobs.len() - i,
{
    if i == blobs.len() {
        assert(blobs.take(i) =~= blobs);
        assert(payload(blobs).subrange(0, payload(blobs).len() as int) =~= payload(blobs));
    } else {
        lemma_payload_prefix(blobs, i + 1);
        lemma_payload_step(blobs, i);
        let whole = payload(blobs);
        let longer = payload(blobs.take(i + 1));
        let shorter = payload(blobs.take(i));
        assert(whole.subrange(0, shorter.len() as int) =~= longer.subrange(
            0,
            shorter.len() as int,
        ));
        assert(longer.subrange(0, shorter.len() as int) =~= shorter);
    }
}

/// Each blob's payload lies in the whole payload right after those before it.
pub proof fn lemma_payload_slice(blobs: Seq<BlobView>, i: int)
    requires
        0 <= i < blobs.len(),
    ensures
        payload(blobs.take(i)).len() + blobs[i].data.len() <= payload(blobs).len(),
        payload(blobs).subrange(
            payload(blobs.take(i)).len() as int,
            (payload(blobs.take(i)).len() + blobs[i].data.len()) as int,
        ) == blobs[i].data,
{
    lemma_payload_prefix(blobs, i + 1);
    lemma_payload_step(blobs, i);
    let whole = payload(blobs);
    let before = payload(blobs.take(i));
    let upto = payload(blobs.take(i + 1));
    let end = (before.len() + blobs[i].data.len()) as int;
    assert(whole.subrange(before.len() as int, end) =~= upto.subrange(
        before.len() as int,
        upto.len() as int,
    ));
    assert(upto.subrange(before.len() as int, upto.len() as int) =~= blobs[i].data);
}

/// A container begins with the stub, unchanged, and the payloads follow it
/// without a gap.
pub proof fn lemma_stub_kept(stub: Seq<u8>, blobs: Seq<BlobView>, table: Seq<u8>)
    ensures
        container(stub, blobs, table).subrange(0, stub.len() as int) == stub,
        container(stub, blobs, table).subrange(
            stub.len() as int,
            (stub.len() + payload(blobs).len()) as int,
        ) == payload(blobs),
{
    let file = container(stub, blobs, table);
    assert(file.subrange(0, stub.len() as int) =~= stub);
    assert(file.subrange(stub.len() as int, (stub.len() + payload(blobs).len()) as int)
        =~= payload(blobs));
}

/// The footer of a container is exactly sixteen digits, whatever the sizes of
/// the stub, the payloads and the table, and the container is that much
/// longer than what it holds.
pub proof fn lemma_footer_width(stub: Seq<u8>, blobs: Seq<BlobView>, table: Seq<u8>)
    ensures
        container(stub, blobs, table).len() == stub.len() + payload(blobs).len() + table.len()
            + footer_width(),
        footer_of(container(stub, blobs, table)) == decimal(
            (stub.len() + payload(blobs).len()) as nat,
            footer_width(),
        ),
        footer_of(container(stub, blobs, table)).len() == footer_width(),
        all_digits(footer_of(container(stub, blobs, table))),
{
    let at = (stub.len() + payload(blobs).len()) as nat;
    lemma_decimal_shape(at, footer_width());
    let file = container(stub, blobs, table);
    assert(footer_of(file) =~= decimal(at, footer_width()));
}

/// The reader finds the table of a written container where the writer put it,
/// and finds the table's bytes unchanged.
pub proof fn lemma_table_located(stub: Seq<u8>, blobs: Seq<BlobView>, table: Seq<u8>)
    requires
        stub.len() + payload(blobs).len() < footer_limit(),
    ensures
        table_start(container(stub, blobs, table)) == Ok::<nat, ExtractError>(
            (stub.len() + payload(blobs).len()) as nat,
        ),
        table_bytes(container(stub, blobs, table)) == table,
{
    let at = (stub.len() + payload(blobs).len()) as nat;
    let file = container(stub, blobs, table);
    lemma_footer_width(stub, blobs, table);
    lemma_decimal_round_trip(at, footer_width());
    assert(table_bytes(file) =~= table);
}

/// Every entry that the writer records describes, in the written container,
/// exactly the payload it was recorded for, and ends before the table.
pub proof fn lemma_entries_describe_payloads(stub: Seq<u8>, blobs: Seq<BlobView>, table: Seq<u8>)
    ensures
        all_in_bounds(
            table_entries(stub.len(), blobs),
            (stub.len() + payload(blobs).len()) as nat,
        ),
        sliced(container(stub, blobs, table), table_entries(stub.len(), blobs)) == blobs,
        entry_names(table_entries(stub.len(), blobs)) == names_of(blobs),
{
    let file = container(stub, blobs, table);
    let entries = table_entries(stub.len(), blobs);
    let whole = payload(blobs);
    assert forall|i: int| 0 <= i < entries.len() implies in_bounds(
        #[trigger] entries[i],
        (stub.len() + whole.len()) as nat,
    ) && slice_of(file, entries[i]) == blobs[i].data by {
        lemma_payload_slice(blobs, i);
        let before = payload(blobs.take(i)).len();
        assert(slice_of(file, entries[i]) =~= whole.subrange(
            before as int,
            (before + blobs[i].data.len()) as int,
        ));
    }
    assert(sliced(file, entries) =~= blobs);
    assert(entry_names(entries) =~= names_of(blobs));
}

/// Where no blob bears the manifest's name, there is no manifest and nothing
/// is set aside.
pub proof fn lemma_without_manifest(files: Seq<BlobView>)
    requires
        forall|i: int| 0 <= i < files.len() ==> (#[trigger] files[i]).name != manifest_name(),
    ensures
        pick_manifest(files) is None,
        drop_manifest(files) == files,
    decreases files.len(),
{
    if files.len() > 0 {
        lemma_without_manifest(files.drop_last());
        assert(files.last() == files[files.len() - 1]);
        assert(drop_manifest(files) =~= files);
    } else {
        assert(drop_manifest(files) =~= files);
    }
}

/// Where the manifest leads and no file bears its name, the manifest and the
/// files come apart again unchanged.
pub proof fn lemma_manifest_first(m: Seq<u8>, files: Seq<BlobView>)
    requires
        forall|i: int| 0 <= i < files.len() ==> (#[trigger] files[i]).name != manifest_name(),
    ensures
        pick_manifest(with_manifest(Some(m), files)) == Some(m),
        drop_manifest(with_manifest(Some(m), files)) == files,
    decreases files.len(),
{
    let head = seq![BlobView { name: manifest_name(), data: m }];
    let all = with_manifest(Some(m), files);
    if files.len() == 0 {
        assert(all =~= head);
        assert(all.last().name == manifest_name());
        assert(drop_manifest(all.drop_last()) =~= Seq::<BlobView>::empty());
        assert(drop_manifest(all) =~= files);
    } else {
        lemma_manifest_first(m, files.drop_last());
        assert(all.drop_last() =~= with_manifest(Some(m), files.drop_last()));
        assert(all.last() == files[files.len() - 1]);
        assert(drop_manifest(all) =~= files);
    }
}

/// With distinct names and an explicit manifest, no file bears the manifest's
/// name.
pub proof fn lemma_distinct_reserves_manifest(m: Seq<u8>, files: Seq<BlobView>)
    requires
        distinct(names_of(with_manifest(Some(m), files))),
    ensures
        forall|i: int| 0 <= i < files.len() ==> (#[trigger] files[i]).name != manifest_name(),
{
    let all = with_manifest(Some(m), files);
    let names = names_of(all);
    assert forall|i: int| 0 <= i < files.len() implies (#[trigger] files[i]).name
        != manifest_name() by {
        assert(names[0] == manifest_name());
        assert(names[i + 1] == files[i].name);
    }
}

/// A container written from a stub, a manifest and files with distinct names
/// reads back as that manifest and those files, byte for byte and in order,
/// whatever the stub and the table's bytes are. Files of length zero and an
/// empty list of files are included.
pub proof fn lemma_round_trip(
    stub: Seq<u8>,
    manifest: Seq<u8>,
    files: Seq<BlobView>,
    table: Seq<u8>,
)
    requires
        pack_spec(stub, Some(manifest), files, table) is Ok,
    ensures
        ({
            let file = pack_spec(stub, Some(manifest), files, table)->Ok_0;
            let entries = layout_spec(stub.len(), Some(manifest), files)->Ok_0;
            &&& layout_spec(stub.len(), Some(manifest), files) is Ok
            &&& table_bytes(file) == table
            &&& extract_spec(file, entries) == Ok::<PartsView, ExtractError>(
                PartsView { manifest, files },
            )
        }),
{
    let blobs = with_manifest(Some(manifest), files);
    lemma_table_located(stub, blobs, table);
    lemma_entries_describe_payloads(stub, blobs, table);
    lemma_distinct_reserves_manifest(manifest, files);
    lemma_manifest_first(manifest, files);
}

/// A container written without a manifest, and with no file that bears the
/// manifest's name, is well formed but is refused for want of a manifest.
pub proof fn lemma_missing_manifest(stub: Seq<u8>, files: Seq<BlobView>, table: Seq<u8>)
    requires
        pack_spec(stub, None, files, table) is Ok,
        forall|i: int| 0 <= i < files.len() ==> (#[trigger] files[i]).name != manifest_name(),
    ensures
        extract_spec(
            pack_spec(stub, None, files, table)->Ok_0,
            layout_spec(stub.len(), None, files)->Ok_0,
        ) == Err::<PartsView, ExtractError>(ExtractError::MissingManifest),
{
    lemma_table_located(stub, files, table);
    lemma_entries_describe_payloads(stub, files, table);
    lemma_without_manifest(files);
}

/// Two files with the same name are refused.
pub proof fn lemma_duplicate_files_rejected(
    stub: Seq<u8>,
    manifest: Option<Seq<u8>>,
    files: Seq<BlobView>,
    table: Seq<u8>,
    i: int,
    j: int,
)
    requires
        0 <= i < j < files.len(),
        files[i].name == files[j].name,
    ensures
        pack_spec(stub, manifest, files, table) == Err::<Seq<u8>, PackError>(
            PackError::DuplicateName,
        ),
        layout_spec(stub.len(), manifest, files) == Err::<Seq<EntryView>, PackError>(
            PackError::DuplicateName,
        ),
{
    let names = names_of(with_manifest(manifest, files));
    match manifest {
        Some(m) => {
            assert(names[i + 1] == names[j + 1]);
        },
        None => {
            assert(names[i] == names[j]);
        },
    }
}

/// A file that bears the manifest's name beside an explicit manifest is
/// refused.
pub proof fn lemma_reserved_name_rejected(
    stub: Seq<u8>,
    manifest: Seq<u8>,
    files: Seq<BlobView>,
    table: Seq<u8>,
    i: int,
)
    requires
        0 <= i < files.len(),
        files[i].name == manifest_name(),
    ensures
        pack_spec(stub, Some(manifest), files, table) == Err::<Seq<u8>, PackError>(
            PackError::DuplicateName,
        ),
        layout_spec(stub.len(), Some(manifest), files) == Err::<Seq<EntryView>, PackError>(
            PackError::DuplicateName,
        ),
{
    let names = names_of(with_manifest(Some(manifest), files));
    assert(names[0] == names[i + 1]);
}

/// A file shorter than the footer, a footer that is not all digits, and a
/// footer that points past its own beginning are each refused as malformed,
/// whatever the entries.
pub proof fn lemma_bad_footer_rejected(file: Seq<u8>, entries: Seq<EntryView>)
    requires
        file.len() < footer_width() || !all_digits(footer_of(file)) || digits_value(
            footer_of(file),
        ) > file.len() - footer_width(),
    ensures
        table_start(file) == Err::<nat, ExtractError>(ExtractError::Format),
        extract_spec(file, entries) == Err::<PartsView, ExtractError>(ExtractError::Format),
{
}

/// An entry whose payload would reach into the table is refused as malformed.
pub proof fn lemma_out_of_bounds_rejected(file: Seq<u8>, entries: Seq<EntryView>, i: int)
    requires
        table_start(file) is Ok,
        0 <= i < entries.len(),
        entries[i].offset + entries[i].size > table_start(file)->Ok_0,
    ensures
        extract_spec(file, entries) == Err::<PartsView, ExtractError>(ExtractError::Format),
{
    assert(!in_bounds(entries[i], table_start(file)->Ok_0));
}

/// What is left once the manifest is taken out bears distinct names, none of
/// them the manifest's, where the names were distinct before; and where a
/// manifest was found, exactly one payload was taken out.
pub proof fn lemma_drop_manifest_distinct(items: Seq<BlobView>)
    requires
        distinct(names_of(items)),
    ensures
        distinct(names_of(drop_manifest(items))),
        forall|i: int|
            0 <= i < drop_manifest(items).len() ==> (#[trigger] drop_manifest(items)[i]).name
                != manifest_name(),
        forall|i: int|
            0 <= i < drop_manifest(items).len() ==> exists|j: int|
                0 <= j < items.len() && items[j] == #[trigger] drop_manifest(items)[i],
        pick_manifest(items) is Some ==> drop_manifest(items).len() + 1 == items.len(),
        pick_manifest(items) is None ==> drop_manifest(items) == items,
    decreases items.len(),
{
    if items.len() > 0 {
        let init = items.drop_last();
        let last = items.last();
        let names = names_of(items);
        assert forall|i: int, j: int| 0 <= i < j < names_of(init).len() implies names_of(init)[i]
            != names_of(init)[j] by {
            assert(names[i] != names[j]);
        }
        lemma_drop_manifest_distinct(init);
        let kept = drop_manifest(init);
        let out = drop_manifest(items);
        assert forall|i: int| 0 <= i < out.len() implies exists|j: int|
            0 <= j < items.len() && items[j] == #[trigger] out[i] by {
            if i < kept.len() {
                let j = choose|j: int| 0 <= j < init.len() && init[j] == kept[i];
                assert(items[j] == out[i]);
            } else {
                assert(items[items.len() - 1] == out[i]);
            }
        }
        if last.name == manifest_name() {
            // No earlier payload bears the manifest's name, so none was
            // taken out before.
            assert forall|i: int| 0 <= i < init.len() implies (#[trigger] init[i]).name
                != manifest_name() by {
                assert(names[i] != names[items.len() - 1]);
            }
            lemma_without_manifest(init);
        } else {
            assert forall|i: int, j: int| 0 <= i < j < names_of(out).len() implies names_of(
                out,
            )[i] != names_of(out)[j] by {
                if j == out.len() - 1 {
                    let k = choose|k: int| 0 <= k < init.len() && init[k] == kept[i];
                    assert(names[k] != names[items.len() - 1]);
                } else {
                    assert(names_of(kept)[i] != names_of(kept)[j]);
                }
            }
            if pick_manifest(items) is None {
                assert(out =~= items);
            }
        }
    } else {
        assert(drop_manifest(items) =~= items);
    }
}

/// A package that was read holds files with distinct names, none of them the
/// manifest's, and one file fewer than the table has entries.
pub proof fn lemma_extracted_files_distinct(file: Seq<u8>, entries: Seq<EntryView>)
    requires
        extract_spec(file, entries) is Ok,
    ensures
        distinct(names_of(extract_spec(file, entries)->Ok_0.files)),
        forall|i: int|
            0 <= i < extract_spec(file, entries)->Ok_0.files.len() ==> (
            #[trigger] extract_spec(file, entries)->Ok_0.files[i]).name != manifest_name(),
        extract_spec(file, entries)->Ok_0.files.len() + 1 == entries.len(),
{
    let items = sliced(file, entries);
    assert(names_of(items) =~= entry_names(entries));
    lemma_drop_manifest_distinct(items);
}

} // verus!
