//! Packing the pages of a chapter into one stored (uncompressed) archive.
//!
//! The archive takes every regular file that lies directly in the chapter's
//! working directory, under its file name, in the lexicographic order of the
//! names: the order of the pages. It is built in memory, which succeeds
//! unless a file is too large for the archive writer; writing it out and
//! removing the working directory is left to the caller, who removes the
//! directory only where packing succeeded.

use crate::text::{
    chars_lt, each_chars, lemma_lex_lt_asymmetric, lemma_lex_lt_total, lemma_lex_lt_transitive,
    lex_lt, to_chars,
};
use std::io::Cursor;
use std::io::Write;
use vstd::multiset::Multiset;
use vstd::prelude::*;
use zip::result::ZipError;
use zip::write::FileOptions;
use zip::CompressionMethod;
use zip::DateTime;
use zip::ZipWriter;

verus! {

/// The extension of a chapter's archive, with its dot.
pub const ARCHIVE_SUFFIX: &'static str = ".cbz";

/// The permission bits given to every entry.
pub const ENTRY_MODE: u32 = 0o755;

/// How the bytes of an entry are kept in the archive.
#[derive(Clone, Copy, Debug, PartialEq, Eq, Structural)]
pub enum Compression {
    /// As they are, without compression.
    Stored,
}

/// A `zip::ZipWriter` that builds its archive in memory.
///
/// Trusted: the writer is kept opaque; all that is said of it is said over
/// [`archive_entries`] and [`is_open`].
#[verifier::external_body]
pub struct ArchiveWriter {
    inner: ZipWriter<Cursor<Vec<u8>>>,
}

#[verifier::external_type_specification]
#[verifier::external_body]
pub struct ExZipError(ZipError);

/// The most bytes that one entry can hold: the writer refuses an entry that
/// grows beyond.
pub const ENTRY_LIMIT: u64 = 0xFFFF_FFFF;

/// The most that permission bits can be: the nine bits of owner, group and
/// others.
pub const MODE_LIMIT: u32 = 0o777;

/// The entries that an archive writer holds, as its list of files has them:
/// of each, in the order in which they were started, its name, its
/// permission bits, and the bytes written to it so far.
pub uninterp spec fn archive_entries(writer: ArchiveWriter) -> Seq<
    (Seq<char>, u32, Seq<u8>),
>;

/// Whether an archive writer still takes entries and bytes: it has not been
/// finished, and it has refused no write. A writer that refused a write is
/// closed for good.
pub uninterp spec fn is_open(writer: ArchiveWriter) -> bool;

/// The bytes of the archive that holds the given entries, each stored without
/// compression and dated with the archive format's first day: what
/// `zip::ZipWriter::finish` hands out for them.
pub uninterp spec fn stored_archive(entries: Seq<(Seq<char>, u32, Seq<u8>)>) -> Seq<u8>;

/// A writer of an archive in memory, open and with no entry yet.
///
/// Trusted: `zip::ZipWriter::new` over an empty `std::io::Cursor`; the new
/// writer's list of files is empty.
#[verifier::external_body]
fn new_writer() -> (writer: ArchiveWriter)
    ensures
        archive_entries(writer) == Seq::<(Seq<char>, u32, Seq<u8>)>::empty(),
        is_open(writer),
{
    ArchiveWriter { inner: ZipWriter::new(Cursor::new(Vec::new())) }
}

/// Starts an entry of the given name, compression and permission bits.
///
/// Trusted: `zip::ZipWriter::start_file`, with options made by
/// `FileOptions::default`, `compression_method`, `unix_permissions` and
/// `last_modified_time`, the date being `zip::DateTime::default`, so that the
/// archive does not depend on the clock. An open writer takes the entry: all
/// that `start_file` does with such options is to close the entry before and
/// to write headers to the cursor, which grows as needed. Where it succeeds,
/// the writer is open and holds one more entry, last, under that name and
/// still without bytes. Permission bits above `MODE_LIMIT` would be cut off
/// and are left out. Nothing is claimed where it fails.
#[verifier::external_body]
fn start_entry(
    writer: &mut ArchiveWriter,
    name: &str,
    compression: Compression,
    mode: u32,
) -> (started: Result<(), ZipError>)
    requires
        mode <= MODE_LIMIT,
    ensures
        is_open(*old(writer)) ==> started is Ok,
        started is Ok ==> is_open(*final(writer)),
        started is Ok ==> archive_entries(*final(writer)) == archive_entries(*old(writer)).push(
            (name@, mode, Seq::<u8>::empty()),
        ),
{
    let method = match compression {
        Compression::Stored => CompressionMethod::Stored,
    };
    let dated = FileOptions::default().last_modified_time(DateTime::default());
    let options = dated.compression_method(method).unix_permissions(mode);
    writer.inner.start_file(name, options)
}

/// Writes bytes to the entry started last.
///
/// Trusted: `std::io::Write::write_all` on the `zip::ZipWriter`. An open
/// writer takes the bytes if and only if the entry does not grow beyond
/// `ENTRY_LIMIT` with them: that is the one write that `ZipWriter::write`
/// refuses once an entry has been started, the cursor below it growing as
/// needed. Where it succeeds, the bytes stand at the end of the last entry
/// and the writer is as open as before. A writer without an entry is left
/// out: it takes no bytes. Nothing more is claimed where it fails.
#[verifier::external_body]
fn write_entry(writer: &mut ArchiveWriter, data: &Vec<u8>) -> (written: Result<
    (),
    ZipError,
>)
    requires
        archive_entries(*old(writer)).len() > 0,
    ensures
        is_open(*old(writer)) && archive_entries(*old(writer)).last().2.len() + data@.len()
            <= ENTRY_LIMIT ==> written is Ok,
        is_open(*old(writer)) && written is Ok ==> archive_entries(*old(writer)).last().2.len()
            + data@.len() <= ENTRY_LIMIT,
        written is Ok ==> is_open(*final(writer)) == is_open(*old(writer)),
        written is Ok ==> {
            let before = archive_entries(*old(writer));
            archive_entries(*final(writer)) == before.update(
                before.len() - 1,
                (before.last().0, before.last().1, before.last().2 + data@),
            )
        },
{
    writer.inner.write_all(data.as_slice()).map_err(ZipError::from)
}

/// Closes the archive and hands out its bytes.
///
/// Trusted: `zip::ZipWriter::finish`, then `Cursor::into_inner`. An open
/// writer finishes: what is left to do is to close the last entry and to
/// write the directory to the cursor. Where it succeeds, the bytes are those
/// of the archive of the entries that the writer held, a result that the
/// contract only names.
#[verifier::external_body]
fn finish_archive(writer: ArchiveWriter) -> (bytes: Result<Vec<u8>, ZipError>)
    ensures
        is_open(writer) ==> bytes is Ok,
        bytes matches Ok(b) ==> b@ == stored_archive(archive_entries(writer)),
{
    let mut writer = writer;
    match writer.inner.finish() {
        Ok(cursor) => Ok(cursor.into_inner()),
        Err(error) => Err(error),
    }
}

/// The text of an archive error.
///
/// Trusted: the `Display` of `zip::result::ZipError`. Nothing is claimed of
/// the text.
#[verifier::external_body]
fn archive_error_text(error: &ZipError) -> String {
    format!("{}", error)
}

/// One entry of a working directory, as the caller found it.
pub struct SourceFile {
    /// The name of the entry inside the directory.
    pub name: String,
    /// Whether the entry is a regular file.
    pub is_file: bool,
    /// The bytes of a regular file; `None` where it could not be read.
    pub contents: Option<Vec<u8>>,
}

/// One entry of an archive: a name and the bytes stored under it.
pub struct ArchiveEntry {
    pub name: String,
    pub data: Vec<u8>,
}

/// Why a chapter could not be packed.
pub enum PackagingError {
    /// A regular file of the working directory could not be read.
    SourceUnreadable { name: String },
    /// The archive writer refused an entry: it was too large.
    Archive { message: String },
}

/// A packed chapter.
pub struct Archive {
    /// The file name of the archive: the chapter's name and the suffix.
    pub file_name: String,
    /// The names of the entries, in archive order.
    pub entry_names: Vec<String>,
    /// The archive itself.
    pub bytes: Vec<u8>,
}

impl ArchiveEntry {
    /// The entry as plain values: name, permission bits, bytes.
    pub open spec fn stored(self) -> (Seq<char>, u32, Seq<u8>) {
        (self.name@, ENTRY_MODE, self.data@)
    }
}

impl SourceFile {
    /// Whether this is a regular file that could not be read.
    pub open spec fn is_unreadable(self) -> bool {
        self.is_file && self.contents is None
    }

    /// The bytes of the file, none where it could not be read.
    pub open spec fn bytes(self) -> Seq<u8> {
        match self.contents {
            Some(bytes) => bytes@,
            None => Seq::empty(),
        }
    }
}

/// The plain values of a list of entries.
pub open spec fn stored_entries(entries: Seq<ArchiveEntry>) -> Seq<(Seq<char>, u32, Seq<u8>)> {
    entries.map_values(|e: ArchiveEntry| e.stored())
}

/// The names of a list of entries.
pub open spec fn entry_names(entries: Seq<ArchiveEntry>) -> Seq<Seq<char>> {
    entries.map_values(|e: ArchiveEntry| e.name@)
}

/// The regular files of a directory, each with its name and bytes, in no
/// order. An unreadable file counts with no bytes.
pub open spec fn regular_files(files: Seq<SourceFile>) -> Multiset<(Seq<char>, Seq<u8>)>
    decreases files.len(),
{
    if files.len() == 0 {
        Multiset::empty()
    } else {
        let rest = regular_files(files.drop_last());
        let file = files.last();
        if file.is_file {
            rest.insert((file.name@, file.bytes()))
        } else {
            rest
        }
    }
}

/// Whether every entry is small enough for the archive writer.
pub open spec fn all_fit(entries: Seq<ArchiveEntry>) -> bool {
    forall|i: int| 0 <= i < entries.len() ==> (#[trigger] entries[i]).data@.len() <= ENTRY_LIMIT
}

/// Whether every regular file of the directory is small enough for the
/// archive writer.
pub open spec fn files_fit(files: Seq<SourceFile>) -> bool {
    forall|i: int|
        0 <= i < files.len() && (#[trigger] files[i]).is_file ==> files[i].bytes().len()
            <= ENTRY_LIMIT
}

/// The names and bytes of a list of entries, in no order.
pub open spec fn entry_contents(entries: Seq<ArchiveEntry>) -> Multiset<(Seq<char>, Seq<u8>)> {
    entries.map_values(|e: ArchiveEntry| (e.name@, e.data@)).to_multiset()
}

/// Whether some regular file of the directory could not be read.
pub open spec fn any_unreadable(files: Seq<SourceFile>) -> bool {
    exists|i: int| 0 <= i < files.len() && (#[trigger] files[i]).is_unreadable()
}

/// Whether the entries stand in the lexicographic order of their names.
pub open spec fn names_sorted(entries: Seq<ArchiveEntry>) -> bool {
    forall|i: int, j: int|
        0 <= i < j < entries.len() ==> !lex_lt(
            (#[trigger] entries[j]).name@,
            (#[trigger] entries[i]).name@,
        )
}

/// Whether `entries` is what the archive of a directory holds: its regular
/// files, all of them and nothing else, in the order of their names.
pub open spec fn is_selection(files: Seq<SourceFile>, entries: Seq<ArchiveEntry>) -> bool {
    &&& names_sorted(entries)
    &&& entry_contents(entries) == regular_files(files)
}

/// Whether packing failed on a file that could not be read.
pub open spec fn is_source_failure<T>(packed: Result<T, PackagingError>) -> bool {
    packed matches Err(e) && e is SourceUnreadable
}

/// Whether the error names a regular file of the directory that could not
/// be read.
pub open spec fn names_unreadable(files: Seq<SourceFile>, error: PackagingError) -> bool {
    error matches PackagingError::SourceUnreadable { name } && exists|i: int|
        0 <= i < files.len() && (#[trigger] files[i]).is_unreadable() && files[i].name@ == name@
}

/// In a directory whose files all have different names, the entries of the
/// archive ascend strictly: each name sorts before the next.
pub proof fn lemma_selection_ascends(entries: Seq<ArchiveEntry>)
    requires
        names_sorted(entries),
        forall|i: int, j: int|
            0 <= i < j < entries.len() ==> (#[trigger] entries[i]).name@ != (
            #[trigger] entries[j]).name@,
    ensures
        forall|i: int, j: int|
            0 <= i < j < entries.len() ==> lex_lt(
                (#[trigger] entries[i]).name@,
                (#[trigger] entries[j]).name@,
            ),
{
    assert forall|i: int, j: int| 0 <= i < j < entries.len() implies lex_lt(
        (#[trigger] entries[i]).name@,
        (#[trigger] entries[j]).name@,
    ) by {
        lemma_lex_lt_total(entries[i].name@, entries[j].name@);
    }
}

/// The file name of the archive of a chapter.
pub open spec fn archive_name_of(chapter_name: Seq<char>) -> Seq<char> {
    chapter_name + ARCHIVE_SUFFIX@
}

/// The file name of the archive of a chapter: its name and the suffix.
pub fn archive_name(chapter_name: &str) -> (name: String)
    ensures
        name@ == archive_name_of(chapter_name@),
{
    let mut name = String::new();
    name.append(chapter_name);
    name.append(ARCHIVE_SUFFIX);
    assert(name@ =~= archive_name_of(chapter_name@));
    name
}

proof fn lemma_insert_keeps_sorted(entries: Seq<ArchiveEntry>, at: int, entry: ArchiveEntry)
    requires
        names_sorted(entries),
        0 <= at <= entries.len(),
        forall|i: int| 0 <= i < at ==> !lex_lt(entry.name@, (#[trigger] entries[i]).name@),
        at < entries.len() ==> lex_lt(entry.name@, entries[at].name@),
    ensures
        names_sorted(entries.insert(at, entry)),
{
    let after = entries.insert(at, entry);
    assert forall|i: int, j: int| 0 <= i < j < after.len() implies !lex_lt(
        (#[trigger] after[j]).name@,
        (#[trigger] after[i]).name@,
    ) by {
        if j == at {
            assert(after[i] == entries[i]);
        } else if i == at {
            assert(after[j] == entries[j - 1]);
            if j - 1 > at {
                assert(!lex_lt(entries[j - 1].name@, entries[at].name@));
            }
            if lex_lt(entries[j - 1].name@, entry.name@) {
                lemma_lex_lt_transitive(entries[j - 1].name@, entry.name@, entries[at].name@);
                lemma_lex_lt_asymmetric(entries[j - 1].name@, entries[at].name@);
            }
        } else {
            let oi = if i < at { i } else { i - 1 };
            let oj = if j < at { j } else { j - 1 };
            assert(after[i] == entries[oi]);
            assert(after[j] == entries[oj]);
        }
    }
}

proof fn lemma_no_entries(entries: Seq<ArchiveEntry>)
    requires
        entries.len() == 0,
    ensures
        entry_contents(entries) == Multiset::<(Seq<char>, Seq<u8>)>::empty(),
{
    let pairs = entries.map_values(|e: ArchiveEntry| (e.name@, e.data@));
    vstd::seq_lib::to_multiset_len(pairs);
    vstd::multiset::lemma_multiset_empty_len(pairs.to_multiset());
}

/// The entries of the archive of a directory: its regular files in the order
/// of their names. Fails where a regular file could not be read, and only
/// there.
pub fn select_entries(files: Vec<SourceFile>) -> (selected: Result<Vec<ArchiveEntry>, PackagingError>)
    ensures
        selected is Err <==> any_unreadable(files@),
        selected matches Err(e) ==> names_unreadable(files@, e),
        selected matches Ok(entries) ==> is_selection(files@, entries@),
{
    let mut rest = files;
    let mut entries: Vec<ArchiveEntry> = Vec::new();
    let mut keys: Vec<Vec<char>> = Vec::new();
    proof {
        lemma_no_entries(entries@);
        assert(rest@.take(rest@.len() as int) =~= rest@);
        assert(entry_contents(entries@).add(regular_files(rest@)) =~= regular_files(files@));
    }
    while rest.len() > 0
        invariant
            rest@.len() <= files@.len(),
            rest@ == files@.take(rest@.len() as int),
            keys@.len() == entries@.len(),
            forall|i: int| 0 <= i < entries@.len() ==> (#[trigger] keys@[i])@ == entries@[i].name@,
            names_sorted(entries@),
            entry_contents(entries@).add(regular_files(rest@)) == regular_files(files@),
            forall|i: int| rest@.len() <= i < files@.len() ==> !(#[trigger] files@[i]).is_unreadable(),
        decreases rest@.len(),
    {
        let ghost before = rest@;
        let file = rest.pop().unwrap();
        assert(rest@ =~= before.drop_last());
        assert(rest@ =~= files@.take(rest@.len() as int));
        assert(file == files@[rest@.len() as int]);
        if file.is_file {
            let data = match file.contents {
                Some(bytes) => bytes,
                None => {
                    assert(files@[rest@.len() as int].is_unreadable());
                    return Err(PackagingError::SourceUnreadable { name: file.name });
                },
            };
            let key = to_chars(file.name.as_str());
            let mut at: usize = 0;
            while at < keys.len() && !chars_lt(&key, &keys[at])
                invariant
                    at <= keys@.len(),
                    keys@.len() == entries@.len(),
                    key@ == file.name@,
                    forall|i: int|
                        0 <= i < entries@.len() ==> (#[trigger] keys@[i])@ == entries@[i].name@,
                    forall|i: int| 0 <= i < at ==> !lex_lt(key@, (#[trigger] entries@[i]).name@),
                decreases keys@.len() - at,
            {
                at += 1;
            }
            let entry = ArchiveEntry { name: file.name, data };
            proof {
                lemma_insert_keeps_sorted(entries@, at as int, entry);
                let pairs = entries@.map_values(|e: ArchiveEntry| (e.name@, e.data@));
                vstd::seq_lib::to_multiset_insert(pairs, at as int, (entry.name@, entry.data@));
                assert(entries@.insert(at as int, entry).map_values(
                    |e: ArchiveEntry| (e.name@, e.data@),
                ) =~= pairs.insert(at as int, (entry.name@, entry.data@)));
                assert(regular_files(before) == regular_files(rest@).insert(
                    (entry.name@, entry.data@),
                ));
                assert(entry_contents(entries@.insert(at as int, entry)).add(regular_files(rest@))
                    =~= entry_contents(entries@).add(regular_files(before)));
            }
            entries.insert(at, entry);
            keys.insert(at, key);
        } else {
            assert(regular_files(before) == regular_files(rest@));
        }
    }
    proof {
        assert(rest@ =~= Seq::<SourceFile>::empty());
        assert(entry_contents(entries@).add(Multiset::empty()) =~= entry_contents(entries@));
        assert(!any_unreadable(files@));
    }
    Ok(entries)
}

fn archive_failure(error: &ZipError) -> (failure: PackagingError)
    ensures
        failure is Archive,
{
    PackagingError::Archive { message: archive_error_text(error) }
}

/// Packs the entries, in the order given, into one archive, each stored
/// without compression and with the permission bits `ENTRY_MODE`. This
/// succeeds if and only if no entry is larger than `ENTRY_LIMIT`, and the
/// bytes are then those of the archive of exactly these entries.
pub fn pack_entries(entries: &Vec<ArchiveEntry>) -> (bytes: Result<Vec<u8>, PackagingError>)
    ensures
        bytes is Ok <==> all_fit(entries@),
        bytes matches Ok(b) ==> b@ == stored_archive(stored_entries(entries@)),
        bytes matches Err(e) ==> e is Archive,
{
    let mut writer = new_writer();
    let mut i: usize = 0;
    assert(stored_entries(entries@.take(0)) =~= Seq::empty());
    while i < entries.len()
        invariant
            i <= entries@.len(),
            is_open(writer),
            archive_entries(writer) == stored_entries(entries@.take(i as int)),
            forall|k: int| 0 <= k < i ==> (#[trigger] entries@[k]).data@.len() <= ENTRY_LIMIT,
        decreases entries@.len() - i,
    {
        let entry = &entries[i];
        match start_entry(&mut writer, entry.name.as_str(), Compression::Stored, ENTRY_MODE) {
            Ok(_) => {},
            Err(error) => {
                return Err(archive_failure(&error));
            },
        }
        assert(archive_entries(writer).last().2.len() == 0);
        match write_entry(&mut writer, &entry.data) {
            Ok(_) => {},
            Err(error) => {
                assert(entries@[i as int].data@.len() > ENTRY_LIMIT);
                return Err(archive_failure(&error));
            },
        }
        i += 1;
        assert(archive_entries(writer) =~= stored_entries(entries@.take(i as int))) by {
            assert(entries@.take(i as int) =~= entries@.take(i - 1).push(entries@[i - 1]));
            assert(Seq::<u8>::empty() + entry.data@ =~= entry.data@);
        }
    }
    assert(entries@.take(i as int) =~= entries@);
    match finish_archive(writer) {
        Ok(bytes) => Ok(bytes),
        Err(error) => Err(archive_failure(&error)),
    }
}

/// Whether `pair` is the name and bytes of the regular file `file`.
pub open spec fn is_file_pair(file: SourceFile, pair: (Seq<char>, Seq<u8>)) -> bool {
    file.is_file && pair == (file.name@, file.bytes())
}

proof fn lemma_regular_files_has(files: Seq<SourceFile>, pair: (Seq<char>, Seq<u8>))
    ensures
        regular_files(files).count(pair) > 0 <==> exists|j: int|
            0 <= j < files.len() && is_file_pair(#[trigger] files[j], pair),
    decreases files.len(),
{
    broadcast use vstd::multiset::group_multiset_axioms;

    if files.len() > 0 {
        let rest = files.drop_last();
        let last = files.last();
        lemma_regular_files_has(rest, pair);
        assert(forall|j: int| 0 <= j < rest.len() ==> rest[j] == files[j]);
        if regular_files(files).count(pair) > 0 {
            if is_file_pair(last, pair) {
                assert(is_file_pair(files[files.len() - 1], pair));
            } else {
                assert(regular_files(rest).count(pair) > 0);
                let j = choose|j: int| 0 <= j < rest.len() && is_file_pair(#[trigger] rest[j], pair);
                assert(is_file_pair(files[j], pair));
            }
        }
        if exists|j: int| 0 <= j < files.len() && is_file_pair(#[trigger] files[j], pair) {
            let j = choose|j: int| 0 <= j < files.len() && is_file_pair(#[trigger] files[j], pair);
            if j < rest.len() {
                assert(is_file_pair(rest[j], pair));
            }
        }
    }
}

/// The entries of the archive of a directory are small enough for the
/// archive writer if and only if the regular files of the directory are.
pub proof fn lemma_selection_fits(files: Seq<SourceFile>, entries: Seq<ArchiveEntry>)
    requires
        is_selection(files, entries),
    ensures
        all_fit(entries) == files_fit(files),
{
    let pairs = entries.map_values(|e: ArchiveEntry| (e.name@, e.data@));
    if all_fit(entries) {
        assert forall|j: int| 0 <= j < files.len() && (#[trigger] files[j]).is_file implies files[j].bytes().len()
            <= ENTRY_LIMIT by {
            let pair = (files[j].name@, files[j].bytes());
            assert(is_file_pair(files[j], pair));
            lemma_regular_files_has(files, pair);
            vstd::seq_lib::to_multiset_contains(pairs, pair);
            let i = pairs.index_of(pair);
            assert(pairs[i] == (entries[i].name@, entries[i].data@));
        }
    }
    if files_fit(files) {
        assert forall|i: int| 0 <= i < entries.len() implies (#[trigger] entries[i]).data@.len()
            <= ENTRY_LIMIT by {
            let pair = (entries[i].name@, entries[i].data@);
            assert(pairs[i] == pair);
            assert(pairs.contains(pair));
            vstd::seq_lib::to_multiset_contains(pairs, pair);
            lemma_regular_files_has(files, pair);
            let j = choose|j: int| 0 <= j < files.len() && is_file_pair(#[trigger] files[j], pair);
            assert(files[j].bytes() == entries[i].data@);
        }
    }
}

/// Packs the working directory of a chapter: the regular files among `files`,
/// in the order of their names, into the archive named after the chapter.
///
/// This succeeds if and only if every regular file could be read and none is
/// larger than `ENTRY_LIMIT`. A file that could not be read fails it before
/// anything is packed. The caller keeps the working directory where this
/// fails.
pub fn write_zip(files: Vec<SourceFile>, chapter_name: &str) -> (archive: Result<
    Archive,
    PackagingError,
>)
    ensures
        archive is Ok <==> !any_unreadable(files@) && files_fit(files@),
        is_source_failure(archive) == any_unreadable(files@),
        archive matches Err(e) ==> e is Archive || names_unreadable(files@, e),
        archive matches Ok(a) ==> {
            &&& a.file_name@ == archive_name_of(chapter_name@)
            &&& exists|entries: Seq<ArchiveEntry>|
                {
                    &&& #[trigger] is_selection(files@, entries)
                    &&& a.bytes@ == stored_archive(stored_entries(entries))
                    &&& each_chars(a.entry_names@) == entry_names(entries)
                }
        },
{
    let entries = match select_entries(files) {
        Ok(entries) => entries,
        Err(error) => {
            return Err(error);
        },
    };
    proof {
        lemma_selection_fits(files@, entries@);
    }
    let bytes = match pack_entries(&entries) {
        Ok(bytes) => bytes,
        Err(error) => {
            return Err(error);
        },
    };
    let mut names: Vec<String> = Vec::new();
    let mut i: usize = 0;
    while i < entries.len()
        invariant
            i <= entries@.len(),
            names@.len() == i,
            forall|k: int| 0 <= k < i ==> (#[trigger] names@[k])@ == entries@[k].name@,
        decreases entries@.len() - i,
    {
        names.push(entries[i].name.clone());
        i += 1;
    }
    assert(each_chars(names@) =~= entry_names(entries@));
    Ok(Archive { file_name: archive_name(chapter_name), entry_names: names, bytes })
}

} // verus!
