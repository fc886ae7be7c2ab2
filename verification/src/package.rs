//! Packing a workbook into an archive: the manifest, the parts of the
//! package, and the archive that holds them.

use crate::config::{is_settings_error, settings_text, write_settings};
use crate::document::{book_writable, document_text, unwritable_error, write_ods_content};
use crate::error::OdsError;
use crate::escape::{escaped, lemma_escaped_ident_plain};
use crate::manifest::{contains_key, has_path, manifest_views, with_entry, Manifest};
use crate::meta::{metadata_text, write_metadata, Metadata};
use crate::sheet::{Sheet, WorkBook};
use crate::stylesdoc::{styles_document_text, write_ods_styles};
use crate::text::{
    lemma_append2, lemma_append3, lemma_append4, lemma_append5, lemma_append_empty, str_eq,
};
use crate::validate::{is_fault_of, sanity_checks};
use crate::value::Timestamp;
use crate::xmlwriter::{attr_text, dtd_text, end_tag_text, open_tag_text, XmlWriter};
use std::io::{Cursor, Write};
use vstd::prelude::*;
use vstd::utf8::encode_utf8;
use zip::result::ZipError;
use zip::write::FileOptions;
use zip::{CompressionMethod, ZipWriter};

verus! {

/// An archive that is being written into a buffer in memory. It holds a
/// `zip::ZipWriter` over a `std::io::Cursor`; the writer stays behind this
/// struct because its type is bound by `Write + Seek`. Nothing is known of
/// it but what the functions below say of its files and its buffer.
#[verifier::external_body]
pub struct Archive {
    inner: ZipWriter<Cursor<Vec<u8>>>,
}

/// The error type of the archive writer.
#[verifier::external_type_specification]
#[verifier::external_body]
pub struct ExZipError(ZipError);

/// The entries that have been put into an archive, in their order: of each
/// its name, whether it is stored without compression, whether it is a
/// directory, and the pieces of data that were written to it, one for each
/// call.
pub uninterp spec fn archive_entries(a: Archive) -> Seq<(Seq<char>, bool, bool, Seq<Seq<u8>>)>;

/// The buffer that an archive was begun with.
pub uninterp spec fn archive_base(a: Archive) -> Seq<u8>;

/// Whether `zip::ZipWriter::start_file` succeeds for a file of the given
/// name and compression, on an archive that was begun with the buffer
/// `base` and holds `entries`.
pub uninterp spec fn zip_start_ok(
    base: Seq<u8>,
    entries: Seq<(Seq<char>, bool, bool, Seq<Seq<u8>>)>,
    name: Seq<char>,
    stored: bool,
) -> bool;

/// Whether `zip::ZipWriter::add_directory` succeeds for a directory of the
/// given name, on an archive that was begun with the buffer `base` and
/// holds `entries`.
pub uninterp spec fn zip_directory_ok(
    base: Seq<u8>,
    entries: Seq<(Seq<char>, bool, bool, Seq<Seq<u8>>)>,
    name: Seq<char>,
) -> bool;

/// Whether `write_all` succeeds for the given data, on an archive that was
/// begun with the buffer `base` and holds `entries`.
pub uninterp spec fn zip_write_ok(
    base: Seq<u8>,
    entries: Seq<(Seq<char>, bool, bool, Seq<Seq<u8>>)>,
    data: Seq<u8>,
) -> bool;

/// The bytes that `zip::ZipWriter::finish` leaves in the buffer, for the
/// buffer that the archive was begun with and the entries that were put
/// into it; `None` where it fails.
pub uninterp spec fn zip_archive(
    base: Seq<u8>,
    entries: Seq<(Seq<char>, bool, bool, Seq<Seq<u8>>)>,
) -> Option<Seq<u8>>;

/// Calls `zip::ZipWriter::new` on a cursor at the start of `buf`. The new
/// archive holds no entries.
#[verifier::external_body]
fn zip_new(buf: Vec<u8>) -> (a: Archive)
    ensures
        archive_entries(a) == Seq::<(Seq<char>, bool, bool, Seq<Seq<u8>>)>::empty(),
        archive_base(a) == buf@,
{
    Archive { inner: ZipWriter::new(Cursor::new(buf)) }
}

/// Calls `zip::ZipWriter::start_file` with the default options, the
/// compression method `Stored` or `Deflated`, and the time of change that
/// `zip::DateTime::default` gives. Whether it succeeds depends on the
/// archive, the name and the method alone. Where it succeeds, the archive
/// has one more file, still without data. Where it fails, the archive is
/// given up.
#[verifier::external_body]
fn zip_start_file(a: Archive, name: &str, stored: bool) -> (r: Result<Archive, ZipError>)
    ensures
        r is Ok <==> zip_start_ok(archive_base(a), archive_entries(a), name@, stored),
        r matches Ok(b) ==> archive_entries(b) == archive_entries(a).push(
            (name@, stored, false, Seq::empty()),
        ) && archive_base(b) == archive_base(a),
{
    let mut a = a;
    let method = if stored {
        CompressionMethod::Stored
    } else {
        CompressionMethod::Deflated
    };
    let options = FileOptions::default().compression_method(method).last_modified_time(
        zip::DateTime::default(),
    );
    a.inner.start_file(name, options)?;
    Ok(a)
}

/// Calls `zip::ZipWriter::add_directory` with the default options and the
/// time of change that `zip::DateTime::default` gives. Whether it succeeds
/// depends on the archive and the name alone. Where it succeeds, the
/// archive has one more entry, a directory. Where it fails, the archive is
/// given up.
#[verifier::external_body]
fn zip_add_directory(a: Archive, name: &str) -> (r: Result<Archive, ZipError>)
    ensures
        r is Ok <==> zip_directory_ok(archive_base(a), archive_entries(a), name@),
        r matches Ok(b) ==> archive_entries(b) == archive_entries(a).push(
            (name@, true, true, Seq::empty()),
        ) && archive_base(b) == archive_base(a),
{
    let mut a = a;
    let options = FileOptions::default().last_modified_time(zip::DateTime::default());
    a.inner.add_directory(name, options)?;
    Ok(a)
}

/// Calls `std::io::Write::write_all` on the archive. Whether it succeeds
/// depends on the archive and the data alone. Where it succeeds and the
/// archive holds an entry, `data` is one more piece of the last entry; an
/// archive without entries is left as it is. Where it fails, the archive is
/// given up.
#[verifier::external_body]
fn zip_write_all(a: Archive, data: &[u8]) -> (r: Result<Archive, ZipError>)
    ensures
        r is Ok <==> zip_write_ok(archive_base(a), archive_entries(a), data@),
        r matches Ok(b) ==> {
            let before = archive_entries(a);
            &&& before.len() > 0 ==> archive_entries(b) == before.update(
                before.len() - 1,
                (
                    before.last().0,
                    before.last().1,
                    before.last().2,
                    before.last().3.push(data@),
                ),
            )
            &&& before.len() == 0 ==> archive_entries(b) == before
            &&& archive_base(b) == archive_base(a)
        },
{
    let mut a = a;
    a.inner.write_all(data)?;
    Ok(a)
}

/// Calls `zip::ZipWriter::finish` and takes the buffer out of the cursor.
/// Whether it succeeds, and what the buffer then holds, depends on the
/// archive alone.
#[verifier::external_body]
fn zip_finish(a: Archive) -> (r: Result<Vec<u8>, ZipError>)
    ensures
        match r {
            Ok(bytes) => zip_archive(archive_base(a), archive_entries(a)) == Some(bytes@),
            Err(_) => zip_archive(archive_base(a), archive_entries(a)) is None,
        },
{
    let mut a = a;
    Ok(a.inner.finish()?.into_inner())
}

/// The message of an error of the archive writer, as its `Display` gives it.
#[verifier::external_body]
fn zip_error_text(e: &ZipError) -> (s: String) {
    e.to_string()
}

/// Reads the clock with `std::time::SystemTime::now` and asks it with
/// `duration_since` for the whole seconds since 1970; `None` where the
/// clock stands before 1970. Nothing is claimed of the time.
#[verifier::external_body]
fn clock_seconds() -> (t: Option<u64>) {
    match std::time::SystemTime::now().duration_since(std::time::UNIX_EPOCH) {
        Ok(since) => Some(since.as_secs()),
        Err(_) => None,
    }
}

/// An entry of an archive: its name, whether it is stored without
/// compression, whether it is a directory, and the pieces of its data.
pub type ArchiveEntry = (Seq<char>, bool, bool, Seq<Seq<u8>>);

/// An entry of a manifest: its path, its version, its media type and its
/// bytes.
pub type ManifestEntry = (Seq<char>, Option<Seq<char>>, Seq<char>, Option<Seq<u8>>);

/// One entry of the package: a file with its bytes, or a directory.
#[derive(Debug, PartialEq, Eq)]
pub struct Part {
    pub name: String,
    /// Whether the file is stored without compression.
    pub stored: bool,
    /// Whether the entry is a directory; a directory has no bytes.
    pub directory: bool,
    pub data: Vec<u8>,
}

impl Part {
    /// The part as an entry of an archive: a file with its bytes in one
    /// piece, or a directory.
    pub open spec fn entry(&self) -> ArchiveEntry {
        if self.directory {
            (self.name@, true, true, Seq::empty())
        } else {
            (self.name@, self.stored, false, seq![self.data@])
        }
    }

    /// A file with the given text in UTF-8.
    pub fn file(name: &str, stored: bool, text: &str) -> (p: Part)
        ensures
            p.entry() == (name@, stored, false, seq![encode_utf8(text@)]),
    {
        Part { name: name.to_owned(), stored, directory: false, data: text.as_bytes_vec() }
    }
}

/// The parts as entries of an archive.
pub open spec fn entries_of(parts: Seq<Part>) -> Seq<ArchiveEntry> {
    parts.map_values(|p: Part| p.entry())
}

/// Whether the archive writer takes the entry `entry` into an archive that
/// was begun with the buffer `base` and holds the entries `before`: a
/// directory is added; a file is started and its bytes are written in one
/// piece.
pub open spec fn entry_ok(
    base: Seq<u8>,
    before: Seq<ArchiveEntry>,
    entry: ArchiveEntry,
) -> bool {
    if entry.2 {
        zip_directory_ok(base, before, entry.0)
    } else {
        &&& entry.3.len() == 1
        &&& zip_start_ok(base, before, entry.0, entry.1)
        &&& zip_write_ok(
            base,
            before.push((entry.0, entry.1, false, Seq::empty())),
            entry.3[0],
        )
    }
}

/// Whether the archive writer takes the first `n` of the entries, one after
/// the other.
pub open spec fn entries_ok(
    base: Seq<u8>,
    entries: Seq<ArchiveEntry>,
    n: int,
) -> bool
    decreases n,
{
    if n <= 0 {
        true
    } else {
        entries_ok(base, entries, n - 1) && entry_ok(base, entries.take(n - 1), entries[n - 1])
    }
}

/// Whether the entries can be packed into an archive over the buffer
/// `base`: the archive writer takes each of them and finishes the archive.
pub open spec fn pack_ok(base: Seq<u8>, entries: Seq<ArchiveEntry>) -> bool {
    entries_ok(base, entries, entries.len() as int) && zip_archive(base, entries) is Some
}

/// Once the archive writer refuses one of the first entries, it does not
/// take the entries.
pub proof fn lemma_entries_refused(
    base: Seq<u8>,
    entries: Seq<ArchiveEntry>,
    i: int,
    n: int,
)
    requires
        0 <= i <= n,
        !entries_ok(base, entries, i),
    ensures
        !entries_ok(base, entries, n),
    decreases n - i,
{
    if i < n {
        lemma_entries_refused(base, entries, i, n - 1);
    }
}

/// What is made of the outcome of a call to the archive writer: its error
/// becomes an error of the library, with the message that the archive writer
/// gives.
pub fn zip_result<T>(result: Result<T, ZipError>) -> (r: Result<T, OdsError>)
    ensures
        result matches Ok(v) ==> r == Ok::<T, OdsError>(v),
        result is Err ==> (r matches Err(e) && e is Zip),
{
    match result {
        Ok(v) => Ok(v),
        Err(e) => Err(OdsError::Zip(zip_error_text(&e))),
    }
}

/// Puts `parts` into an archive that is written over `buf`: each directory
/// as a directory, each file with its bytes in one piece. It succeeds
/// exactly when the archive writer takes every part and finishes the
/// archive; where the archive writer fails, its error is handed on.
pub fn pack_parts(parts: &Vec<Part>, buf: Vec<u8>) -> (r: Result<Vec<u8>, OdsError>)
    ensures
        r is Ok <==> pack_ok(buf@, entries_of(parts@)),
        r matches Ok(bytes) ==> zip_archive(buf@, entries_of(parts@)) == Some(bytes@),
        r matches Err(e) ==> e is Zip,
{
    let mut archive = zip_new(buf);
    let ghost all = entries_of(parts@);
    let mut i: usize = 0;
    assert(all.take(0) == Seq::<ArchiveEntry>::empty());
    while i < parts.len()
        invariant
            i <= parts.len(),
            all == entries_of(parts@),
            archive_base(archive) == buf@,
            archive_entries(archive) == all.take(i as int),
            entries_ok(buf@, all, i as int),
        decreases parts.len() - i,
    {
        let part = &parts[i];
        let ghost before = archive_entries(archive);
        proof {
            assert(all[i as int] == part.entry());
            if !entry_ok(buf@, all.take(i as int), all[i as int]) {
                lemma_entries_refused(buf@, all, i + 1, all.len() as int);
            }
        }
        if part.directory {
            archive = zip_result(zip_add_directory(archive, part.name.as_str()))?;
        } else {
            archive = zip_result(zip_start_file(archive, part.name.as_str(), part.stored))?;
            archive = zip_result(zip_write_all(archive, part.data.as_slice()))?;
            proof {
                let started = before.push(
                    (part.name@, part.stored, false, Seq::<Seq<u8>>::empty()),
                );
                assert(started.last().3.push(part.data@) == seq![part.data@]);
            }
        }
        proof {
            assert(archive_entries(archive) == before.push(part.entry()));
            assert(all.take(i + 1) == all.take(i as int).push(part.entry()));
        }
        i += 1;
    }
    assert(all.take(all.len() as int) == all);
    zip_result(zip_finish(archive))
}

/// One description of the package description: what it is about, and the
/// one element that it holds, with the namespace that the element brings
/// along, where it brings one, and the resource that it names.
#[verifier::opaque]
pub open spec fn rdf_description_text(
    about: Seq<char>,
    child: Seq<char>,
    namespace: Option<Seq<char>>,
    resource: Seq<char>,
) -> Seq<char> {
    (open_tag_text("rdf:Description"@) + attr_text("rdf:about"@, about) + seq!['>']) + (
    open_tag_text(child) + (match namespace {
        Some(ns) => attr_text("xmlns:ns0"@, ns),
        None => Seq::empty(),
    }) + attr_text("rdf:resource"@, resource) + seq!['/', '>']) + end_tag_text(
        "rdf:Description"@,
    )
}

/// The start tag of the package description.
#[verifier::opaque]
pub open spec fn rdf_open_text() -> Seq<char> {
    open_tag_text("rdf:RDF"@) + attr_text(
        "xmlns:rdf"@,
        "http://www.w3.org/1999/02/22-rdf-syntax-ns#"@,
    ) + seq!['>']
}

/// The description of the package: the content document is a content file,
/// the package has it as a part, and the package is a document.
pub open spec fn rdf_text() -> Seq<char> {
    dtd_text("UTF-8"@) + rdf_open_text() + rdf_description_text(
        "content.xml"@,
        "rdf:type"@,
        None,
        "http://docs.oasis-open.org/ns/office/1.2/meta/odf#ContentFile"@,
    ) + rdf_description_text(
        ""@,
        "ns0:hasPart"@,
        Some("http://docs.oasis-open.org/ns/office/1.2/meta/pkg#"@),
        "content.xml"@,
    ) + rdf_description_text(
        ""@,
        "rdf:type"@,
        None,
        "http://docs.oasis-open.org/ns/office/1.2/meta/pkg#Document"@,
    ) + end_tag_text("rdf:RDF"@)
}

/// Writes one description of the package description.
fn write_rdf_description(
    about: &str,
    child: &str,
    namespace: Option<&str>,
    resource: &str,
    xml_out: &mut XmlWriter,
) -> (r: Result<(), OdsError>)
    ensures
        r is Ok,
        final(xml_out).document() == old(xml_out).document() + rdf_description_text(
            about@,
            child@,
            match namespace {
                Some(ns) => Some(ns@),
                None => None,
            },
            resource@,
        ),
        final(xml_out).open_elements() == old(xml_out).open_elements(),
{
    let ghost start = xml_out.document();
    let ghost stack = xml_out.open_elements();
    let ghost spaced = match namespace {
        Some(ns) => attr_text("xmlns:ns0"@, ns@),
        None => Seq::empty(),
    };
    xml_out.elem("rdf:Description")?;
    xml_out.attr("rdf:about", about)?;
    let ghost opened = xml_out.document();
    proof {
        lemma_append3(
            start,
            open_tag_text("rdf:Description"@),
            attr_text("rdf:about"@, about@),
            seq!['>'],
        );
    }
    xml_out.empty(child)?;
    proof {
        lemma_append_empty(xml_out.written());
    }
    if let Some(ns) = namespace {
        xml_out.attr("xmlns:ns0", ns)?;
    }
    xml_out.attr("rdf:resource", resource)?;
    proof {
        lemma_append4(
            opened,
            open_tag_text(child@),
            spaced,
            attr_text("rdf:resource"@, resource@),
            seq!['/', '>'],
        );
    }
    assert(xml_out.open_elements().drop_last() == stack);
    xml_out.end_elem("rdf:Description")?;
    proof {
        reveal(rdf_description_text);
        lemma_append3(
            start,
            open_tag_text("rdf:Description"@) + attr_text("rdf:about"@, about@) + seq!['>'],
            open_tag_text(child@) + spaced + attr_text("rdf:resource"@, resource@) + seq!['/', '>'],
            end_tag_text("rdf:Description"@),
        );
    }
    Ok(())
}

/// Writes the description of the package.
pub fn write_manifest_rdf() -> (r: Result<String, OdsError>)
    ensures
        r matches Ok(text) && text@ == rdf_text(),
{
    let mut xml_out = XmlWriter::new(String::new());
    assert(xml_out.document() == Seq::<char>::empty());
    xml_out.dtd("UTF-8")?;
    proof {
        lemma_append_empty(xml_out.written());
        lemma_append_empty(dtd_text("UTF-8"@));
    }
    assert(xml_out.document() == dtd_text("UTF-8"@));
    xml_out.elem("rdf:RDF")?;
    xml_out.attr("xmlns:rdf", "http://www.w3.org/1999/02/22-rdf-syntax-ns#")?;
    proof {
        reveal(rdf_open_text);
        lemma_append3(
            dtd_text("UTF-8"@),
            open_tag_text("rdf:RDF"@),
            attr_text("xmlns:rdf"@, "http://www.w3.org/1999/02/22-rdf-syntax-ns#"@),
            seq!['>'],
        );
    }
    assert(xml_out.document() == dtd_text("UTF-8"@) + rdf_open_text());
    let ghost stack = xml_out.open_elements();
    write_rdf_description(
        "content.xml",
        "rdf:type",
        None,
        "http://docs.oasis-open.org/ns/office/1.2/meta/odf#ContentFile",
        &mut xml_out,
    )?;
    write_rdf_description(
        "",
        "ns0:hasPart",
        Some("http://docs.oasis-open.org/ns/office/1.2/meta/pkg#"),
        "content.xml",
        &mut xml_out,
    )?;
    write_rdf_description(
        "",
        "rdf:type",
        None,
        "http://docs.oasis-open.org/ns/office/1.2/meta/pkg#Document",
        &mut xml_out,
    )?;
    assert(stack.drop_last() == Seq::<Seq<char>>::empty());
    xml_out.end_elem("rdf:RDF")?;
    xml_out.close()?;
    Ok(xml_out.into_inner())
}

/// The media type of a spreadsheet document.
pub open spec fn mime_text() -> Seq<char> {
    "application/vnd.oasis.opendocument.spreadsheet"@
}

/// The manifest with the six entries that every package has, each added
/// unless the manifest has an entry of that path already: the package
/// itself with the version of the document format, the description of the
/// package with its bytes, and the four documents.
pub open spec fn standard_manifest(entries: Seq<ManifestEntry>, version: Seq<char>) -> Seq<
    ManifestEntry,
> {
    let a = with_entry(entries, ("/"@, Some(version), mime_text(), None));
    let b = with_entry(
        a,
        ("manifest.rdf"@, None, "application/rdf+xml"@, Some(encode_utf8(rdf_text()))),
    );
    let c = with_entry(b, ("styles.xml"@, None, "text/xml"@, None));
    let d = with_entry(c, ("meta.xml"@, None, "text/xml"@, None));
    let e = with_entry(d, ("content.xml"@, None, "text/xml"@, None));
    with_entry(e, ("settings.xml"@, None, "text/xml"@, None))
}

/// Whether two workbooks agree in all but their metadata and their
/// manifest.
pub open spec fn same_content(a: WorkBook, b: WorkBook) -> bool {
    &&& a.sheets == b.sheets
    &&& a.def_styles == b.def_styles
    &&& a.version == b.version
    &&& a.config == b.config
    &&& a.fonts == b.fonts
    &&& a.styles == b.styles
    &&& a.formats == b.formats
    &&& a.pagestyles == b.pagestyles
    &&& a.masterpages == b.masterpages
    &&& a.validations == b.validations
    &&& a.extra == b.extra
}

/// Adds an entry to the manifest of the workbook.
fn add_manifest(book: &mut WorkBook, entry: Manifest)
    ensures
        final(book).manifest@ == old(book).manifest@.push(entry),
        final(book).metadata == old(book).metadata,
        same_content(*old(book), *final(book)),
{
    book.manifest.push(entry);
}

/// Makes the entry of the manifest for the description of the package; it
/// brings the description along.
pub fn create_manifest_rdf() -> (r: Result<Manifest, OdsError>)
    ensures
        r matches Ok(m) && m@ == (
            "manifest.rdf"@,
            None::<Seq<char>>,
            "application/rdf+xml"@,
            Some(encode_utf8(rdf_text())),
        ),
{
    let text = write_manifest_rdf()?;
    Ok(Manifest::with_buf("manifest.rdf", "application/rdf+xml", text.as_str().as_bytes_vec()))
}

/// Adds an entry without bytes to the manifest of the workbook, unless the
/// manifest has an entry of that path.
fn add_missing(book: &mut WorkBook, path: &str, media_type: &str)
    ensures
        manifest_views(final(book).manifest@) == with_entry(
            manifest_views(old(book).manifest@),
            (path@, None, media_type@, None),
        ),
        final(book).manifest@.len() >= old(book).manifest@.len(),
        final(book).manifest@.take(old(book).manifest@.len() as int) == old(book).manifest@,
        final(book).metadata == old(book).metadata,
        same_content(*old(book), *final(book)),
{
    if !contains_key(&book.manifest, path) {
        let ghost before = book.manifest@;
        let entry = Manifest::new(path, media_type);
        add_manifest(book, entry);
        assert(manifest_views(book.manifest@) == manifest_views(before).push(entry@));
        assert(book.manifest@.take(before.len() as int) == before);
    } else {
        assert(book.manifest@.take(book.manifest@.len() as int) == book.manifest@);
    }
}

/// Completes the manifest of the workbook: each of the six entries that
/// every package has is added unless the manifest has an entry of that path.
/// The entries that the manifest had stay as they were, at their places,
/// and nothing else of the workbook changes.
pub fn create_manifest(book: &mut WorkBook) -> (r: Result<(), OdsError>)
    ensures
        r is Ok,
        manifest_views(final(book).manifest@) == standard_manifest(
            manifest_views(old(book).manifest@),
            old(book).version@,
        ),
        final(book).manifest@.len() >= old(book).manifest@.len(),
        final(book).manifest@.take(old(book).manifest@.len() as int) == old(book).manifest@,
        final(book).metadata == old(book).metadata,
        same_content(*old(book), *final(book)),
{
    let ghost first = book.manifest@;
    if !contains_key(&book.manifest, "/") {
        let entry = Manifest {
            full_path: "/".to_owned(),
            version: Some(book.version.clone()),
            media_type: "application/vnd.oasis.opendocument.spreadsheet".to_owned(),
            buffer: None,
        };
        add_manifest(book, entry);
        assert(manifest_views(book.manifest@) == manifest_views(first).push(entry@));
    }
    assert(book.manifest@.take(first.len() as int) == first);
    let ghost second = book.manifest@;
    if !contains_key(&book.manifest, "manifest.rdf") {
        let entry = create_manifest_rdf()?;
        add_manifest(book, entry);
        assert(manifest_views(book.manifest@) == manifest_views(second).push(entry@));
    }
    assert(book.manifest@.take(first.len() as int) == first);
    let ghost third = book.manifest@;
    add_missing(book, "styles.xml", "text/xml");
    assert(book.manifest@.take(first.len() as int) == book.manifest@.take(
        third.len() as int,
    ).take(first.len() as int));
    let ghost fourth = book.manifest@;
    add_missing(book, "meta.xml", "text/xml");
    assert(book.manifest@.take(first.len() as int) == book.manifest@.take(
        fourth.len() as int,
    ).take(first.len() as int));
    let ghost fifth = book.manifest@;
    add_missing(book, "content.xml", "text/xml");
    assert(book.manifest@.take(first.len() as int) == book.manifest@.take(
        fifth.len() as int,
    ).take(first.len() as int));
    let ghost sixth = book.manifest@;
    add_missing(book, "settings.xml", "text/xml");
    assert(book.manifest@.take(first.len() as int) == book.manifest@.take(
        sixth.len() as int,
    ).take(first.len() as int));
    Ok(())
}

/// A manifest that has an entry of a path has it still when an entry is
/// added.
pub proof fn lemma_with_entry_keeps(
    entries: Seq<ManifestEntry>,
    entry: ManifestEntry,
    path: Seq<char>,
)
    requires
        has_path(entries, path),
    ensures
        has_path(with_entry(entries, entry), path),
{
    let i = choose|i: int| 0 <= i < entries.len() && (#[trigger] entries[i]).0 == path;
    assert(with_entry(entries, entry)[i].0 == path);
}

/// A manifest to which an entry was added has an entry of that path.
pub proof fn lemma_with_entry_has(entries: Seq<ManifestEntry>, entry: ManifestEntry)
    ensures
        has_path(with_entry(entries, entry), entry.0),
{
    if !has_path(entries, entry.0) {
        assert(entries.push(entry)[entries.len() as int].0 == entry.0);
    }
}

/// A completed manifest has the six entries that every package has.
pub proof fn lemma_standard_manifest_complete(entries: Seq<ManifestEntry>, version: Seq<char>)
    ensures
        has_path(standard_manifest(entries, version), "/"@),
        has_path(standard_manifest(entries, version), "manifest.rdf"@),
        has_path(standard_manifest(entries, version), "styles.xml"@),
        has_path(standard_manifest(entries, version), "meta.xml"@),
        has_path(standard_manifest(entries, version), "content.xml"@),
        has_path(standard_manifest(entries, version), "settings.xml"@),
{
    let e1 = ("/"@, Some(version), mime_text(), None::<Seq<u8>>);
    let e2 = (
        "manifest.rdf"@,
        None::<Seq<char>>,
        "application/rdf+xml"@,
        Some(encode_utf8(rdf_text())),
    );
    let e3 = ("styles.xml"@, None::<Seq<char>>, "text/xml"@, None::<Seq<u8>>);
    let e4 = ("meta.xml"@, None::<Seq<char>>, "text/xml"@, None::<Seq<u8>>);
    let e5 = ("content.xml"@, None::<Seq<char>>, "text/xml"@, None::<Seq<u8>>);
    let e6 = ("settings.xml"@, None::<Seq<char>>, "text/xml"@, None::<Seq<u8>>);
    let a = with_entry(entries, e1);
    let b = with_entry(a, e2);
    let c = with_entry(b, e3);
    let d = with_entry(c, e4);
    let e = with_entry(d, e5);
    lemma_with_entry_has(entries, e1);
    lemma_with_entry_keeps(a, e2, "/"@);
    lemma_with_entry_keeps(b, e3, "/"@);
    lemma_with_entry_keeps(c, e4, "/"@);
    lemma_with_entry_keeps(d, e5, "/"@);
    lemma_with_entry_keeps(e, e6, "/"@);
    lemma_with_entry_has(a, e2);
    lemma_with_entry_keeps(b, e3, "manifest.rdf"@);
    lemma_with_entry_keeps(c, e4, "manifest.rdf"@);
    lemma_with_entry_keeps(d, e5, "manifest.rdf"@);
    lemma_with_entry_keeps(e, e6, "manifest.rdf"@);
    lemma_with_entry_has(b, e3);
    lemma_with_entry_keeps(c, e4, "styles.xml"@);
    lemma_with_entry_keeps(d, e5, "styles.xml"@);
    lemma_with_entry_keeps(e, e6, "styles.xml"@);
    lemma_with_entry_has(c, e4);
    lemma_with_entry_keeps(d, e5, "meta.xml"@);
    lemma_with_entry_keeps(e, e6, "meta.xml"@);
    lemma_with_entry_has(d, e5);
    lemma_with_entry_keeps(e, e6, "content.xml"@);
    lemma_with_entry_has(e, e6);
}

/// A manifest to which an entry was added begins with the manifest as it
/// was.
pub proof fn lemma_with_entry_extends(entries: Seq<ManifestEntry>, entry: ManifestEntry)
    ensures
        with_entry(entries, entry).len() >= entries.len(),
        with_entry(entries, entry).take(entries.len() as int) == entries,
{
    assert(with_entry(entries, entry).take(entries.len() as int) =~= entries);
}

/// A completed manifest begins with the manifest as it was: no entry is
/// changed, moved or taken away.
pub proof fn lemma_standard_manifest_keeps(entries: Seq<ManifestEntry>, version: Seq<char>)
    ensures
        standard_manifest(entries, version).len() >= entries.len(),
        standard_manifest(entries, version).take(entries.len() as int) == entries,
{
    let a = with_entry(entries, ("/"@, Some(version), mime_text(), None));
    let b = with_entry(
        a,
        ("manifest.rdf"@, None, "application/rdf+xml"@, Some(encode_utf8(rdf_text()))),
    );
    let c = with_entry(b, ("styles.xml"@, None, "text/xml"@, None));
    let d = with_entry(c, ("meta.xml"@, None, "text/xml"@, None));
    let e = with_entry(d, ("content.xml"@, None, "text/xml"@, None));
    let f = with_entry(e, ("settings.xml"@, None, "text/xml"@, None));
    lemma_with_entry_extends(entries, ("/"@, Some(version), mime_text(), None));
    lemma_with_entry_extends(
        a,
        ("manifest.rdf"@, None, "application/rdf+xml"@, Some(encode_utf8(rdf_text()))),
    );
    lemma_with_entry_extends(b, ("styles.xml"@, None, "text/xml"@, None));
    lemma_with_entry_extends(c, ("meta.xml"@, None, "text/xml"@, None));
    lemma_with_entry_extends(d, ("content.xml"@, None, "text/xml"@, None));
    lemma_with_entry_extends(e, ("settings.xml"@, None, "text/xml"@, None));
    let n = entries.len() as int;
    assert(b.take(n) =~= b.take(a.len() as int).take(n));
    assert(c.take(n) =~= c.take(b.len() as int).take(n));
    assert(d.take(n) =~= d.take(c.len() as int).take(n));
    assert(e.take(n) =~= e.take(d.len() as int).take(n));
    assert(f.take(n) =~= f.take(e.len() as int).take(n));
}

/// Completing a manifest a second time changes nothing.
pub proof fn lemma_standard_manifest_idempotent(entries: Seq<ManifestEntry>, version: Seq<char>)
    ensures
        standard_manifest(standard_manifest(entries, version), version) == standard_manifest(
            entries,
            version,
        ),
{
    let done = standard_manifest(entries, version);
    lemma_standard_manifest_complete(entries, version);
    let e1 = ("/"@, Some(version), mime_text(), None::<Seq<u8>>);
    assert(with_entry(done, e1) == done);
}

/// One entry of the manifest as an element of the manifest document.
#[verifier::opaque]
pub open spec fn manifest_entry_text(entry: ManifestEntry) -> Seq<char> {
    open_tag_text("manifest:file-entry"@) + attr_text(
        "manifest:full-path"@,
        escaped(entry.0, false),
    ) + (match entry.1 {
        Some(version) => attr_text("manifest:version"@, escaped(version, false)),
        None => Seq::empty(),
    }) + attr_text("manifest:media-type"@, escaped(entry.2, false)) + seq!['/', '>']
}

/// The first `n` entries of the manifest as elements, in their order.
pub open spec fn manifest_entries_text(entries: Seq<ManifestEntry>, n: int) -> Seq<char>
    decreases n,
{
    if n <= 0 {
        Seq::empty()
    } else {
        manifest_entries_text(entries, n - 1) + manifest_entry_text(entries[n - 1])
    }
}

/// The start tag of the manifest document.
#[verifier::opaque]
pub open spec fn manifest_open_text(version: Seq<char>) -> Seq<char> {
    open_tag_text("manifest:manifest"@) + attr_text(
        "xmlns:manifest"@,
        "urn:oasis:names:tc:opendocument:xmlns:manifest:1.0"@,
    ) + attr_text("manifest:version"@, escaped(version, false)) + seq!['>']
}

/// The manifest document: one element for each entry of the manifest.
pub open spec fn manifest_text(version: Seq<char>, entries: Seq<ManifestEntry>) -> Seq<char> {
    dtd_text("UTF-8"@) + manifest_open_text(version) + manifest_entries_text(
        entries,
        entries.len() as int,
    ) + end_tag_text("manifest:manifest"@)
}

/// Writes one entry of the manifest.
fn write_manifest_entry(entry: &Manifest, xml_out: &mut XmlWriter) -> (r: Result<(), OdsError>)
    ensures
        r is Ok,
        final(xml_out).document() == old(xml_out).document() + manifest_entry_text(entry@),
        final(xml_out).open_elements() == old(xml_out).open_elements(),
{
    let ghost start = xml_out.document();
    let ghost version = if entry.version is Some {
        attr_text("manifest:version"@, escaped(entry.version->0@, false))
    } else {
        Seq::empty()
    };
    proof {
        reveal_strlit("manifest:full-path");
        reveal_strlit("manifest:version");
        reveal_strlit("manifest:media-type");
        lemma_escaped_ident_plain("manifest:full-path"@);
        lemma_escaped_ident_plain("manifest:version"@);
        lemma_escaped_ident_plain("manifest:media-type"@);
    }
    xml_out.empty("manifest:file-entry")?;
    proof {
        lemma_append_empty(xml_out.written());
    }
    xml_out.attr_esc("manifest:full-path", entry.full_path.as_str())?;
    if let Some(v) = &entry.version {
        xml_out.attr_esc("manifest:version", v.as_str())?;
    }
    xml_out.attr_esc("manifest:media-type", entry.media_type.as_str())?;
    proof {
        reveal(manifest_entry_text);
        lemma_append5(
            start,
            open_tag_text("manifest:file-entry"@),
            attr_text("manifest:full-path"@, escaped(entry.full_path@, false)),
            version,
            attr_text("manifest:media-type"@, escaped(entry.media_type@, false)),
            seq!['/', '>'],
        );
    }
    Ok(())
}

/// Writes the manifest document of the workbook.
pub fn write_manifest(book: &WorkBook) -> (r: Result<String, OdsError>)
    ensures
        r matches Ok(text) && text@ == manifest_text(
            book.version@,
            manifest_views(book.manifest@),
        ),
{
    let ghost entries = manifest_views(book.manifest@);
    let mut xml_out = XmlWriter::new(String::new());
    assert(xml_out.document() == Seq::<char>::empty());
    xml_out.dtd("UTF-8")?;
    proof {
        lemma_append_empty(xml_out.written());
        lemma_append_empty(dtd_text("UTF-8"@));
    }
    assert(xml_out.document() == dtd_text("UTF-8"@));
    xml_out.elem("manifest:manifest")?;
    xml_out.attr("xmlns:manifest", "urn:oasis:names:tc:opendocument:xmlns:manifest:1.0")?;
    proof {
        reveal_strlit("manifest:version");
        lemma_escaped_ident_plain("manifest:version"@);
    }
    xml_out.attr_esc("manifest:version", book.version.as_str())?;
    proof {
        reveal(manifest_open_text);
        lemma_append4(
            dtd_text("UTF-8"@),
            open_tag_text("manifest:manifest"@),
            attr_text("xmlns:manifest"@, "urn:oasis:names:tc:opendocument:xmlns:manifest:1.0"@),
            attr_text("manifest:version"@, escaped(book.version@, false)),
            seq!['>'],
        );
    }
    let ghost head = xml_out.document();
    let ghost stack = xml_out.open_elements();
    assert(head == dtd_text("UTF-8"@) + manifest_open_text(book.version@));
    proof {
        lemma_append_empty(head);
    }
    let mut i: usize = 0;
    while i < book.manifest.len()
        invariant
            i <= book.manifest.len(),
            entries == manifest_views(book.manifest@),
            xml_out.document() == head + manifest_entries_text(entries, i as int),
            xml_out.open_elements() == stack,
        decreases book.manifest.len() - i,
    {
        proof {
            lemma_append2(
                head,
                manifest_entries_text(entries, i as int),
                manifest_entry_text(entries[i as int]),
            );
        }
        write_manifest_entry(&book.manifest[i], &mut xml_out)?;
        i += 1;
    }
    assert(stack.drop_last() == Seq::<Seq<char>>::empty());
    xml_out.end_elem("manifest:manifest")?;
    xml_out.close()?;
    Ok(xml_out.into_inner())
}

/// Whether a path of the manifest names the package itself or one of the
/// four documents that are written from the workbook.
pub open spec fn is_standard_path(path: Seq<char>) -> bool {
    path == "/"@ || path == "settings.xml"@ || path == "styles.xml"@ || path == "content.xml"@
        || path == "meta.xml"@
}

/// Whether a path names a directory: it ends in a slash.
pub open spec fn is_dir_path(path: Seq<char>) -> bool {
    path.len() > 0 && path.last() == '/'
}

/// The entry of the archive for an entry of the manifest that names none of
/// the documents of the workbook: a directory where its path ends in a
/// slash, else a file with the bytes that the entry brings along, or with
/// none.
pub open spec fn extra_entry(entry: ManifestEntry, compressed: bool) -> ArchiveEntry {
    if is_dir_path(entry.0) {
        (entry.0, true, true, Seq::empty())
    } else {
        (entry.0, !compressed, false, seq![
            match entry.3 {
                Some(bytes) => bytes,
                None => Seq::empty(),
            },
        ])
    }
}

/// The entries of the archive for the first `n` entries of the manifest,
/// those left out that name the package or a document of the workbook.
pub open spec fn extra_entries(manifest: Seq<ManifestEntry>, n: int, compressed: bool) -> Seq<
    ArchiveEntry,
>
    decreases n,
{
    if n <= 0 {
        Seq::empty()
    } else if is_standard_path(manifest[n - 1].0) {
        extra_entries(manifest, n - 1, compressed)
    } else {
        extra_entries(manifest, n - 1, compressed).push(extra_entry(manifest[n - 1], compressed))
    }
}

/// Whether the documents of the workbook can be written: the workbook is in
/// order, every date of its metadata has a text, every item of its settings
/// stands where it may, and every value of its sheets can be written.
pub open spec fn packable(book: &WorkBook) -> bool {
    &&& book.wf()
    &&& book.metadata.writable()
    &&& settings_text(book.version@, book.config@) is Some
    &&& book_writable(book)
}

/// The documents of the package, in their order: the media type, the
/// directory of the manifest, the manifest, the metadata, the settings, the
/// styles and the content.
pub open spec fn document_entries(book: &WorkBook, compressed: bool) -> Seq<ArchiveEntry> {
    seq![
        ("mimetype"@, true, false, seq![encode_utf8(mime_text())]),
        ("META-INF"@, true, true, Seq::empty()),
        (
            "META-INF/manifest.xml"@,
            !compressed,
            false,
            seq![encode_utf8(manifest_text(book.version@, manifest_views(book.manifest@)))],
        ),
        (
            "meta.xml"@,
            !compressed,
            false,
            seq![encode_utf8(metadata_text(book.version@, &book.metadata))],
        ),
        (
            "settings.xml"@,
            !compressed,
            false,
            seq![encode_utf8(settings_text(book.version@, book.config@)->0)],
        ),
        ("styles.xml"@, !compressed, false, seq![encode_utf8(styles_document_text(book))]),
        ("content.xml"@, !compressed, false, seq![encode_utf8(document_text(book))]),
    ]
}

/// The entries of the package of a workbook: its documents, and then what
/// else its manifest names. The media type is always stored without
/// compression, the other files only in a package without compression.
pub open spec fn package_entries(book: &WorkBook, compressed: bool) -> Seq<ArchiveEntry> {
    document_entries(book, compressed) + extra_entries(
        manifest_views(book.manifest@),
        book.manifest@.len() as int,
        compressed,
    )
}

/// Whether `e` is the error for a workbook whose documents cannot be
/// written: the first of what is amiss with the workbook, its metadata, its
/// settings and its values.
pub open spec fn is_package_error(book: &WorkBook, e: OdsError) -> bool {
    if !book.wf() {
        is_fault_of(book, e)
    } else if !book.metadata.writable() {
        e == (OdsError::Date {
            at: None,
            secs: book.metadata.first_bad_date().secs,
            nanos: book.metadata.first_bad_date().nanos,
        })
    } else if settings_text(book.version@, book.config@) is None {
        is_settings_error(e)
    } else {
        e == unwritable_error(book)
    }
}

/// Whether the path names the package or one of the documents that are
/// written from the workbook.
fn standard_path(path: &str) -> (b: bool)
    ensures
        b == is_standard_path(path@),
{
    str_eq(path, "/") || str_eq(path, "settings.xml") || str_eq(path, "styles.xml") || str_eq(
        path,
        "content.xml",
    ) || str_eq(path, "meta.xml")
}

/// The part of the package for an entry of the manifest that names none of
/// the documents of the workbook.
fn extra_part(entry: &Manifest, compressed: bool) -> (p: Part)
    ensures
        p.entry() == extra_entry(entry@, compressed),
{
    if entry.is_dir() {
        Part { name: entry.full_path.clone(), stored: true, directory: true, data: Vec::new() }
    } else {
        let data = match &entry.buffer {
            Some(bytes) => vstd::slice::slice_to_vec(bytes.as_slice()),
            None => Vec::new(),
        };
        Part { name: entry.full_path.clone(), stored: !compressed, directory: false, data }
    }
}

/// Makes the documents of the package.
fn document_parts(book: &WorkBook, compressed: bool) -> (r: Result<Vec<Part>, OdsError>)
    ensures
        r is Ok <==> packable(book),
        r matches Ok(parts) ==> entries_of(parts@) == document_entries(book, compressed),
        r matches Err(e) ==> is_package_error(book, e),
{
    sanity_checks(book)?;
    let manifest = write_manifest(book)?;
    let meta = write_metadata(book.version.as_str(), &book.metadata)?;
    let settings = write_settings(book.version.as_str(), &book.config)?;
    let styles = write_ods_styles(book)?;
    let mut content = String::new();
    write_ods_content(book, &mut content)?;
    proof {
        lemma_append_empty(document_text(book));
    }
    let mut parts: Vec<Part> = Vec::new();
    parts.push(Part::file("mimetype", true, "application/vnd.oasis.opendocument.spreadsheet"));
    parts.push(
        Part { name: "META-INF".to_owned(), stored: true, directory: true, data: Vec::new() },
    );
    parts.push(Part::file("META-INF/manifest.xml", !compressed, manifest.as_str()));
    parts.push(Part::file("meta.xml", !compressed, meta.as_str()));
    parts.push(Part::file("settings.xml", !compressed, settings.as_str()));
    parts.push(Part::file("styles.xml", !compressed, styles.as_str()));
    parts.push(Part::file("content.xml", !compressed, content.as_str()));
    assert(entries_of(parts@) =~= document_entries(book, compressed));
    Ok(parts)
}

/// Makes the parts of the package of a workbook: its documents, and then
/// what else its manifest names. A workbook whose documents cannot be
/// written is refused.
pub fn package_parts(book: &WorkBook, compressed: bool) -> (r: Result<Vec<Part>, OdsError>)
    ensures
        r is Ok <==> packable(book),
        r matches Ok(parts) ==> entries_of(parts@) == package_entries(book, compressed),
        r matches Err(e) ==> is_package_error(book, e),
{
    let mut parts = document_parts(book, compressed)?;
    let ghost documents = document_entries(book, compressed);
    let ghost manifest = manifest_views(book.manifest@);
    proof {
        lemma_append_empty(documents);
    }
    let mut i: usize = 0;
    while i < book.manifest.len()
        invariant
            i <= book.manifest.len(),
            manifest == manifest_views(book.manifest@),
            entries_of(parts@) == documents + extra_entries(manifest, i as int, compressed),
        decreases book.manifest.len() - i,
    {
        let entry = &book.manifest[i];
        assert(manifest[i as int] == entry@);
        if !standard_path(entry.full_path.as_str()) {
            let ghost before = parts@;
            let part = extra_part(entry, compressed);
            parts.push(part);
            assert(entries_of(parts@) =~= entries_of(before).push(part.entry()));
            assert(entries_of(parts@) =~= documents + extra_entries(
                manifest,
                i + 1,
                compressed,
            ));
        }
        i += 1;
    }
    Ok(parts)
}

/// The name under which this library writes documents.
pub open spec fn generator_text() -> Seq<char> {
    "ods_grid 0.1.0"@
}

/// The populated cells of the first `n` sheets.
pub open spec fn cell_total(sheets: Seq<Sheet>, n: int) -> int
    decreases n,
{
    if n <= 0 {
        0
    } else {
        cell_total(sheets, n - 1) + sheets[n - 1].cells@.len()
    }
}

/// A count as the metadata hold it: what is beyond the largest number that
/// they can hold counts as that number.
pub open spec fn clipped(n: int) -> u32 {
    if n > u32::MAX {
        u32::MAX
    } else {
        n as u32
    }
}

/// Whether `new` is the metadata of the workbook `book` brought up to date
/// at the time `now`: they name this library as the generator; the dates of
/// creation and of the last change are `now` where none was set; the
/// document has been edited once at least; the sheets and their populated
/// cells are counted. Everything else is as it was.
pub open spec fn metadata_synced(book: WorkBook, new: Metadata, now: Timestamp) -> bool {
    let past = book.metadata;
    &&& new.generator@ == generator_text()
    &&& new.creation_date == Some(
        match past.creation_date {
            Some(t) => t,
            None => now,
        },
    )
    &&& new.date == Some(
        match past.date {
            Some(t) => t,
            None => now,
        },
    )
    &&& new.editing_cycles == if past.editing_cycles == 0 {
        1u32
    } else {
        past.editing_cycles
    }
    &&& new.document_statistics.table_count == clipped(book.sheets@.len() as int)
    &&& new.document_statistics.cell_count == clipped(
        cell_total(book.sheets@, book.sheets@.len() as int),
    )
    &&& new.document_statistics.object_count == past.document_statistics.object_count
    &&& new.document_statistics.ole_object_count == past.document_statistics.ole_object_count
    &&& new.title == past.title
    &&& new.description == past.description
    &&& new.subject == past.subject
    &&& new.language == past.language
    &&& new.keyword == past.keyword
    &&& new.initial_creator == past.initial_creator
    &&& new.creator == past.creator
    &&& new.editing_duration == past.editing_duration
    &&& new.printed_by == past.printed_by
    &&& new.print_date == past.print_date
    &&& new.template == past.template
    &&& new.auto_reload == past.auto_reload
    &&& new.hyperlink_behaviour == past.hyperlink_behaviour
}

/// The populated cells of sheets cannot become fewer with more sheets.
pub proof fn lemma_cell_total_grows(sheets: Seq<Sheet>, n: int)
    requires
        0 <= n <= sheets.len(),
    ensures
        0 <= cell_total(sheets, n),
        n > 0 ==> cell_total(sheets, n - 1) <= cell_total(sheets, n),
    decreases n,
{
    if n > 0 {
        lemma_cell_total_grows(sheets, n - 1);
    }
}

/// Counts the populated cells of the sheets.
fn count_cells(sheets: &Vec<Sheet>) -> (count: u32)
    ensures
        count == clipped(cell_total(sheets@, sheets@.len() as int)),
{
    let mut count: u32 = 0;
    let mut i: usize = 0;
    while i < sheets.len()
        invariant
            i <= sheets.len(),
            count == clipped(cell_total(sheets@, i as int)),
            0 <= cell_total(sheets@, i as int),
        decreases sheets.len() - i,
    {
        proof {
            lemma_cell_total_grows(sheets@, i + 1);
        }
        let cells: usize = sheets[i].cells.len();
        if cells > (u32::MAX - count) as usize {
            count = u32::MAX;
        } else {
            count = count + cells as u32;
        }
        i += 1;
    }
    count
}

/// Brings the metadata of the workbook up to date at the time `now`.
/// Nothing else of the workbook changes.
pub fn sync(book: &mut WorkBook, now: Timestamp)
    ensures
        metadata_synced(*old(book), final(book).metadata, now),
        final(book).manifest == old(book).manifest,
        same_content(*old(book), *final(book)),
{
    book.metadata.generator = "ods_grid 0.1.0".to_owned();
    if book.metadata.creation_date.is_none() {
        book.metadata.creation_date = Some(now);
    }
    if book.metadata.date.is_none() {
        book.metadata.date = Some(now);
    }
    if book.metadata.editing_cycles == 0 {
        book.metadata.editing_cycles = 1;
    }
    let sheets: usize = book.sheets.len();
    book.metadata.document_statistics.table_count = if sheets > u32::MAX as usize {
        u32::MAX
    } else {
        sheets as u32
    };
    book.metadata.document_statistics.cell_count = count_cells(&book.sheets);
}

/// Whether `new` is the workbook `book` made ready for writing at the time
/// `now`: its metadata are brought up to date and its manifest is completed,
/// the entries that the manifest had left as they were; its content is
/// untouched.
pub open spec fn is_prepared(book: WorkBook, new: WorkBook, now: Timestamp) -> bool {
    &&& metadata_synced(book, new.metadata, now)
    &&& manifest_views(new.manifest@) == standard_manifest(
        manifest_views(book.manifest@),
        book.version@,
    )
    &&& new.manifest@.len() >= book.manifest@.len()
    &&& new.manifest@.take(book.manifest@.len() as int) == book.manifest@
    &&& same_content(book, new)
}

/// What writing the workbook `book` at the time `now` over the buffer `buf`
/// comes to, `new` being the workbook afterwards and `r` the bytes of the
/// archive or the error.
///
/// A workbook that is not in order is refused and left as it was. Any other
/// is made ready for writing. An archive is owed exactly when the documents
/// of the workbook, as it then is, can be written and the archive writer
/// takes all the entries of the package; the bytes are then those that the
/// archive writer gives for these entries. Else the error is that of the
/// workbook or that of the archive writer.
pub open spec fn write_outcome(
    book: WorkBook,
    new: WorkBook,
    buf: Seq<u8>,
    now: Timestamp,
    compressed: bool,
    r: Result<Seq<u8>, OdsError>,
) -> bool {
    if !book.wf() {
        &&& new == book
        &&& (r matches Err(e) && is_fault_of(&book, e))
    } else {
        &&& is_prepared(book, new, now)
        &&& r is Ok <==> packable(&new) && pack_ok(buf, package_entries(&new, compressed))
        &&& r matches Ok(bytes) ==> zip_archive(buf, package_entries(&new, compressed)) == Some(
            bytes,
        )
        &&& r matches Err(e) ==> if packable(&new) {
            e is Zip
        } else {
            is_package_error(&new, e)
        }
    }
}

/// The outcome of writing with the bytes as a sequence.
pub open spec fn bytes_of(r: Result<Vec<u8>, OdsError>) -> Result<Seq<u8>, OdsError> {
    match r {
        Ok(bytes) => Ok(bytes@),
        Err(e) => Err(e),
    }
}

/// Writes a workbook that is in order, at the time `now`.
fn write_checked(book: &mut WorkBook, buf: Vec<u8>, now: Timestamp, compressed: bool) -> (r:
    Result<Vec<u8>, OdsError>)
    requires
        old(book).wf(),
    ensures
        write_outcome(*old(book), *final(book), buf@, now, compressed, bytes_of(r)),
{
    sync(book, now);
    create_manifest(book)?;
    assert(is_prepared(*old(book), *book, now));
    let parts = package_parts(book, compressed)?;
    pack_parts(&parts, buf)
}

/// Writes the workbook as a package at the time `now`, over `buf`: the
/// workbook is looked over, its metadata are brought up to date, its
/// manifest is completed, and its documents and what else its manifest
/// names are put into an archive, compressed or not.
pub fn write_ods_at(book: &mut WorkBook, buf: Vec<u8>, now: Timestamp, compressed: bool) -> (r:
    Result<Vec<u8>, OdsError>)
    ensures
        write_outcome(*old(book), *final(book), buf@, now, compressed, bytes_of(r)),
{
    sanity_checks(book)?;
    write_checked(book, buf, now, compressed)
}

/// The message for a clock that gives no time.
pub open spec fn clock_error_text() -> Seq<char> {
    "The clock gives no time after 1970."@
}

/// What writing the workbook `book` by the clock comes to. A workbook that
/// is not in order is refused and left as it was, whatever the clock says.
/// Where the clock gives no time, the workbook is refused and left as it
/// was. Else the outcome is that of writing at some time.
pub open spec fn clock_outcome(
    book: WorkBook,
    new: WorkBook,
    buf: Seq<u8>,
    compressed: bool,
    r: Result<Seq<u8>, OdsError>,
) -> bool {
    if !book.wf() {
        &&& new == book
        &&& (r matches Err(e) && is_fault_of(&book, e))
    } else {
        ||| (new == book && (r matches Err(OdsError::Ods(msg)) && msg@ == clock_error_text()))
        ||| exists|now: Timestamp| #[trigger] write_outcome(book, new, buf, now, compressed, r)
    }
}

/// Writes the workbook by the clock.
fn write_now(book: &mut WorkBook, buf: Vec<u8>, compressed: bool) -> (r: Result<
    Vec<u8>,
    OdsError,
>)
    ensures
        clock_outcome(*old(book), *final(book), buf@, compressed, bytes_of(r)),
{
    sanity_checks(book)?;
    let seconds: u64 = match clock_seconds() {
        Some(seconds) => seconds,
        None => u64::MAX,
    };
    if seconds <= i64::MAX as u64 {
        let now = Timestamp { secs: seconds as i64, nanos: 0 };
        let r = write_checked(book, buf, now, compressed);
        assert(write_outcome(*old(book), *book, buf@, now, compressed, bytes_of(r)));
        r
    } else {
        let r = Err(OdsError::Ods("The clock gives no time after 1970.".to_owned()));
        assert(*book == *old(book));
        assert(bytes_of(r) matches Err(OdsError::Ods(msg)) && msg@ == clock_error_text());
        r
    }
}

/// Writes the workbook as a compressed package over `buf`, at the time that
/// the clock gives.
pub fn write_ods_buf(book: &mut WorkBook, buf: Vec<u8>) -> (r: Result<Vec<u8>, OdsError>)
    ensures
        clock_outcome(*old(book), *final(book), buf@, true, bytes_of(r)),
{
    write_now(book, buf, true)
}

/// Writes the workbook as a package without compression over `buf`, at the
/// time that the clock gives.
pub fn write_ods_buf_uncompressed(book: &mut WorkBook, buf: Vec<u8>) -> (r: Result<
    Vec<u8>,
    OdsError,
>)
    ensures
        clock_outcome(*old(book), *final(book), buf@, false, bytes_of(r)),
{
    write_now(book, buf, false)
}

/// Writes the workbook as a compressed package over what `ods` holds, at
/// the time that the clock gives. Where the workbook is refused, `ods` is
/// left as it was.
pub fn write_ods_to(book: &mut WorkBook, ods: &mut Vec<u8>) -> (r: Result<(), OdsError>)
    ensures
        clock_outcome(
            *old(book),
            *final(book),
            old(ods)@,
            true,
            match r {
                Ok(_) => Ok(final(ods)@),
                Err(e) => Err(e),
            },
        ),
        r is Err ==> final(ods)@ == old(ods)@,
{
    let buf = vstd::slice::slice_to_vec(ods.as_slice());
    let bytes = write_now(book, buf, true)?;
    *ods = bytes;
    Ok(())
}

} // verus!
