use ods_grid::error::{Fault, OdsError};
use ods_grid::manifest::{contains_key, Manifest};
use ods_grid::package::{
    create_manifest, create_manifest_rdf, pack_parts, package_parts, sync, write_manifest,
    write_manifest_rdf, write_ods_at, write_ods_buf, write_ods_buf_uncompressed, write_ods_to,
    zip_result, Part,
};
use ods_grid::sheet::{CellContent, GridCell, Sheet, WorkBook};
use ods_grid::value::{Timestamp, Value};
use std::io::{Cursor, Read};

const MIME: &str = "application/vnd.oasis.opendocument.spreadsheet";

const DTD: &str = "<?xml version=\"1.0\" encoding=\"UTF-8\" ?>\n";

const CONTENT_NS: &str = " xmlns:meta=\"urn:oasis:names:tc:opendocument:xmlns:meta:1.0\" xmlns:office=\"urn:oasis:names:tc:opendocument:xmlns:office:1.0\" xmlns:fo=\"urn:oasis:names:tc:opendocument:xmlns:xsl-fo-compatible:1.0\" xmlns:ooo=\"http://openoffice.org/2004/office\" xmlns:xlink=\"http://www.w3.org/1999/xlink\" xmlns:dc=\"http://purl.org/dc/elements/1.1/\" xmlns:style=\"urn:oasis:names:tc:opendocument:xmlns:style:1.0\" xmlns:text=\"urn:oasis:names:tc:opendocument:xmlns:text:1.0\" xmlns:draw=\"urn:oasis:names:tc:opendocument:xmlns:drawing:1.0\" xmlns:dr3d=\"urn:oasis:names:tc:opendocument:xmlns:dr3d:1.0\" xmlns:svg=\"urn:oasis:names:tc:opendocument:xmlns:svg-compatible:1.0\" xmlns:chart=\"urn:oasis:names:tc:opendocument:xmlns:chart:1.0\" xmlns:rpt=\"http://openoffice.org/2005/report\" xmlns:table=\"urn:oasis:names:tc:opendocument:xmlns:table:1.0\" xmlns:number=\"urn:oasis:names:tc:opendocument:xmlns:datastyle:1.0\" xmlns:ooow=\"http://openoffice.org/2004/writer\" xmlns:oooc=\"http://openoffice.org/2004/calc\" xmlns:of=\"urn:oasis:names:tc:opendocument:xmlns:of:1.2\" xmlns:tableooo=\"http://openoffice.org/2009/table\" xmlns:calcext=\"urn:org:documentfoundation:names:experimental:calc:xmlns:calcext:1.0\" xmlns:drawooo=\"http://openoffice.org/2010/draw\" xmlns:loext=\"urn:org:documentfoundation:names:experimental:office:xmlns:loext:1.0\" xmlns:field=\"urn:openoffice:names:experimental:ooo-ms-interop:xmlns:field:1.0\" xmlns:math=\"http://www.w3.org/1998/Math/MathML\" xmlns:form=\"urn:oasis:names:tc:opendocument:xmlns:form:1.0\" xmlns:script=\"urn:oasis:names:tc:opendocument:xmlns:script:1.0\" xmlns:dom=\"http://www.w3.org/2001/xml-events\" xmlns:xforms=\"http://www.w3.org/2002/xforms\" xmlns:xsd=\"http://www.w3.org/2001/XMLSchema\" xmlns:xsi=\"http://www.w3.org/2001/XMLSchema-instance\" xmlns:formx=\"urn:openoffice:names:experimental:ooxml-odf-interop:xmlns:form:1.0\" xmlns:xhtml=\"http://www.w3.org/1999/xhtml\" xmlns:grddl=\"http://www.w3.org/2003/g/data-view#\" xmlns:css3t=\"http://www.w3.org/TR/css3-text/\" xmlns:presentation=\"urn:oasis:names:tc:opendocument:xmlns:presentation:1.0\"";
const STYLES_NS: &str = " xmlns:meta=\"urn:oasis:names:tc:opendocument:xmlns:meta:1.0\" xmlns:office=\"urn:oasis:names:tc:opendocument:xmlns:office:1.0\" xmlns:fo=\"urn:oasis:names:tc:opendocument:xmlns:xsl-fo-compatible:1.0\" xmlns:ooo=\"http://openoffice.org/2004/office\" xmlns:xlink=\"http://www.w3.org/1999/xlink\" xmlns:dc=\"http://purl.org/dc/elements/1.1/\" xmlns:style=\"urn:oasis:names:tc:opendocument:xmlns:style:1.0\" xmlns:text=\"urn:oasis:names:tc:opendocument:xmlns:text:1.0\" xmlns:dr3d=\"urn:oasis:names:tc:opendocument:xmlns:dr3d:1.0\" xmlns:svg=\"urn:oasis:names:tc:opendocument:xmlns:svg-compatible:1.0\" xmlns:chart=\"urn:oasis:names:tc:opendocument:xmlns:chart:1.0\" xmlns:rpt=\"http://openoffice.org/2005/report\" xmlns:table=\"urn:oasis:names:tc:opendocument:xmlns:table:1.0\" xmlns:number=\"urn:oasis:names:tc:opendocument:xmlns:datastyle:1.0\" xmlns:ooow=\"http://openoffice.org/2004/writer\" xmlns:oooc=\"http://openoffice.org/2004/calc\" xmlns:of=\"urn:oasis:names:tc:opendocument:xmlns:of:1.2\" xmlns:tableooo=\"http://openoffice.org/2009/table\" xmlns:calcext=\"urn:org:documentfoundation:names:experimental:calc:xmlns:calcext:1.0\" xmlns:drawooo=\"http://openoffice.org/2010/draw\" xmlns:draw=\"urn:oasis:names:tc:opendocument:xmlns:drawing:1.0\" xmlns:loext=\"urn:org:documentfoundation:names:experimental:office:xmlns:loext:1.0\" xmlns:field=\"urn:openoffice:names:experimental:ooo-ms-interop:xmlns:field:1.0\" xmlns:math=\"http://www.w3.org/1998/Math/MathML\" xmlns:form=\"urn:oasis:names:tc:opendocument:xmlns:form:1.0\" xmlns:script=\"urn:oasis:names:tc:opendocument:xmlns:script:1.0\" xmlns:dom=\"http://www.w3.org/2001/xml-events\" xmlns:xhtml=\"http://www.w3.org/1999/xhtml\" xmlns:grddl=\"http://www.w3.org/2003/g/data-view#\" xmlns:css3t=\"http://www.w3.org/TR/css3-text/\" xmlns:presentation=\"urn:oasis:names:tc:opendocument:xmlns:presentation:1.0\"";
const MANIFEST: &str = "<?xml version=\"1.0\" encoding=\"UTF-8\" ?>\n\
<manifest:manifest xmlns:manifest=\"urn:oasis:names:tc:opendocument:xmlns:manifest:1.0\" manifest:version=\"1.3\">\
<manifest:file-entry manifest:full-path=\"/\" manifest:version=\"1.3\" manifest:media-type=\"application/vnd.oasis.opendocument.spreadsheet\"/>\
<manifest:file-entry manifest:full-path=\"manifest.rdf\" manifest:media-type=\"application/rdf+xml\"/>\
<manifest:file-entry manifest:full-path=\"styles.xml\" manifest:media-type=\"text/xml\"/>\
<manifest:file-entry manifest:full-path=\"meta.xml\" manifest:media-type=\"text/xml\"/>\
<manifest:file-entry manifest:full-path=\"content.xml\" manifest:media-type=\"text/xml\"/>\
<manifest:file-entry manifest:full-path=\"settings.xml\" manifest:media-type=\"text/xml\"/>\
</manifest:manifest>";

const RDF: &str = "<?xml version=\"1.0\" encoding=\"UTF-8\" ?>\n\
<rdf:RDF xmlns:rdf=\"http://www.w3.org/1999/02/22-rdf-syntax-ns#\">\
<rdf:Description rdf:about=\"content.xml\"><rdf:type rdf:resource=\"http://docs.oasis-open.org/ns/office/1.2/meta/odf#ContentFile\"/></rdf:Description>\
<rdf:Description rdf:about=\"\"><ns0:hasPart xmlns:ns0=\"http://docs.oasis-open.org/ns/office/1.2/meta/pkg#\" rdf:resource=\"content.xml\"/></rdf:Description>\
<rdf:Description rdf:about=\"\"><rdf:type rdf:resource=\"http://docs.oasis-open.org/ns/office/1.2/meta/pkg#Document\"/></rdf:Description>\
</rdf:RDF>";

const META: &str = "<?xml version=\"1.0\" encoding=\"UTF-8\" ?>\n\
<office:document-meta xmlns:meta=\"urn:oasis:names:tc:opendocument:xmlns:meta:1.0\" xmlns:office=\"urn:oasis:names:tc:opendocument:xmlns:office:1.0\" office:version=\"1.3\">\
<office:meta><meta:generator>ods_grid 0.1.0</meta:generator>\
<meta:editing-cycles>1</meta:editing-cycles>\
<meta:creation-date>2001-09-09T01:46:40</meta:creation-date>\
<meta:date>2001-09-09T01:46:40</meta:date>\
<meta:document-statistics meta:table-count=\"1\" meta:cell-count=\"1\" meta:object-count=\"0\" meta:ole-object-count=\"0\"/>\
</office:meta></office:document-meta>";

const SETTINGS: &str = "<?xml version=\"1.0\" encoding=\"UTF-8\" ?>\n\
<office:document-settings xmlns:office=\"urn:oasis:names:tc:opendocument:xmlns:office:1.0\" xmlns:ooo=\"http://openoffice.org/2004/office\" xmlns:config=\"urn:oasis:names:tc:opendocument:xmlns:config:1.0\" office:version=\"1.3\">\
<office:settings></office:settings></office:document-settings>";

const NOW: Timestamp = Timestamp { secs: 1_000_000_000, nanos: 0 };

fn styles() -> String {
    [
        DTD,
        "<office:document-styles",
        STYLES_NS,
        " office:version=\"1.3\">",
        "<office:font-face-decls></office:font-face-decls>",
        "<office:styles></office:styles>",
        "<office:automatic-styles></office:automatic-styles>",
        "<office:master-styles></office:master-styles>",
        "</office:document-styles>",
    ]
    .concat()
}

fn content() -> String {
    [
        DTD,
        "<office:document-content",
        CONTENT_NS,
        " office:version=\"1.3\">",
        "<office:scripts/>",
        "<office:font-face-decls></office:font-face-decls>",
        "<office:automatic-styles></office:automatic-styles>",
        "<office:body><office:spreadsheet>",
        "<table:table table:name=\"s\"><table:table-column/><table:table-row><table:table-cell office:value-type=\"string\"><text:p>X</text:p></table:table-cell></table:table-row></table:table>",
        "</office:spreadsheet></office:body></office:document-content>",
    ]
    .concat()
}

fn book() -> WorkBook {
    let mut sheet = Sheet::new("s");
    sheet.cells.push(GridCell {
        row: 0,
        col: 0,
        content: CellContent {
            value: Some(Value::Text("X".to_string())),
            formula: None,
            style: None,
            validation_name: None,
            span: None,
        },
    });
    sheet.extent = (1, 1);
    let mut book = WorkBook::new();
    book.sheets.push(sheet);
    book
}

fn entry(path: &str, version: Option<&str>, media: &str, buffer: Option<&[u8]>) -> Manifest {
    Manifest {
        full_path: path.to_string(),
        version: version.map(|v| v.to_string()),
        media_type: media.to_string(),
        buffer: buffer.map(|b| b.to_vec()),
    }
}

fn standard_entries() -> Vec<Manifest> {
    vec![
        entry("/", Some("1.3"), MIME, None),
        entry("manifest.rdf", None, "application/rdf+xml", Some(RDF.as_bytes())),
        entry("styles.xml", None, "text/xml", None),
        entry("meta.xml", None, "text/xml", None),
        entry("content.xml", None, "text/xml", None),
        entry("settings.xml", None, "text/xml", None),
    ]
}

fn file(name: &str, stored: bool, text: &str) -> Part {
    Part { name: name.to_string(), stored, directory: false, data: text.as_bytes().to_vec() }
}

fn dir(name: &str) -> Part {
    Part { name: name.to_string(), stored: true, directory: true, data: Vec::new() }
}

fn files(bytes: Vec<u8>) -> Vec<(String, bool, String)> {
    let mut archive = zip::ZipArchive::new(Cursor::new(bytes)).unwrap();
    let mut found = Vec::new();
    for i in 0..archive.len() {
        let mut file = archive.by_index(i).unwrap();
        let mut text = String::new();
        file.read_to_string(&mut text).unwrap();
        let stored = file.compression() == zip::CompressionMethod::Stored;
        found.push((file.name().to_string(), stored, text));
    }
    found
}

fn expected_files(stored: bool) -> Vec<(String, bool, String)> {
    vec![
        ("mimetype".to_string(), true, MIME.to_string()),
        ("META-INF/".to_string(), true, String::new()),
        ("META-INF/manifest.xml".to_string(), stored, MANIFEST.to_string()),
        ("meta.xml".to_string(), stored, META.to_string()),
        ("settings.xml".to_string(), stored, SETTINGS.to_string()),
        ("styles.xml".to_string(), stored, styles()),
        ("content.xml".to_string(), stored, content()),
        ("manifest.rdf".to_string(), stored, RDF.to_string()),
    ]
}

#[test]
fn manifest_gets_the_six_entries_of_every_package() {
    let mut b = book();
    assert_eq!(create_manifest(&mut b), Ok(()));
    assert_eq!(b.manifest, standard_entries());
    assert_eq!(write_manifest(&b), Ok(MANIFEST.to_string()));
    for path in ["/", "manifest.rdf", "styles.xml", "meta.xml", "content.xml", "settings.xml"] {
        assert!(contains_key(&b.manifest, path));
    }
    assert!(!contains_key(&b.manifest, "mimetype"));
}

#[test]
fn manifest_keeps_the_entries_that_it_had() {
    let mut b = book();
    b.manifest.push(entry("Pictures/", None, "", None));
    b.manifest.push(entry("content.xml", Some("9"), "application/xml", Some(b"kept")));
    b.manifest.push(entry("Pictures/a.png", None, "image/png", Some(&[1, 2, 3])));
    b.manifest.push(entry("/", None, "other", None));
    let before = vec![
        entry("Pictures/", None, "", None),
        entry("content.xml", Some("9"), "application/xml", Some(b"kept")),
        entry("Pictures/a.png", None, "image/png", Some(&[1, 2, 3])),
        entry("/", None, "other", None),
    ];
    assert_eq!(create_manifest(&mut b), Ok(()));
    assert_eq!(&b.manifest[..4], &before[..]);
    assert_eq!(
        &b.manifest[4..],
        &[
            entry("manifest.rdf", None, "application/rdf+xml", Some(RDF.as_bytes())),
            entry("styles.xml", None, "text/xml", None),
            entry("meta.xml", None, "text/xml", None),
            entry("settings.xml", None, "text/xml", None),
        ][..]
    );
}

#[test]
fn completing_a_manifest_twice_changes_nothing() {
    let mut b = book();
    b.manifest.push(entry("extra.bin", None, "application/octet-stream", Some(&[0])));
    create_manifest(&mut b).unwrap();
    let once = book_copy(&b);
    create_manifest(&mut b).unwrap();
    assert_eq!(b.manifest, once);
    assert_eq!(b.manifest.len(), 7);
}

fn book_copy(b: &WorkBook) -> Vec<Manifest> {
    b.manifest
        .iter()
        .map(|m| Manifest {
            full_path: m.full_path.clone(),
            version: m.version.clone(),
            media_type: m.media_type.clone(),
            buffer: m.buffer.clone(),
        })
        .collect()
}

#[test]
fn completing_the_manifest_touches_nothing_else() {
    let mut b = book();
    b.metadata.title = "t".to_string();
    create_manifest(&mut b).unwrap();
    let mut same = book();
    same.metadata.title = "t".to_string();
    assert_eq!(b.metadata, same.metadata);
    assert_eq!(b.version, same.version);
    assert_eq!(b.sheets.len(), 1);
    assert_eq!(b.sheets[0].cells, same.sheets[0].cells);
    assert_eq!(b.config, same.config);
    assert_eq!(b.manifest, standard_entries());
}

#[test]
fn manifest_entries_are_escaped() {
    let mut b = book();
    b.manifest.push(entry("a&b.xml", Some("<1>"), "text/\"xml\"", None));
    assert_eq!(
        write_manifest(&b),
        Ok("<?xml version=\"1.0\" encoding=\"UTF-8\" ?>\n<manifest:manifest xmlns:manifest=\"urn:oasis:names:tc:opendocument:xmlns:manifest:1.0\" manifest:version=\"1.3\"><manifest:file-entry manifest:full-path=\"a&amp;b.xml\" manifest:version=\"&lt;1&gt;\" manifest:media-type=\"text/&quot;xml&quot;\"/></manifest:manifest>".to_string())
    );
    assert_eq!(
        write_manifest(&book()),
        Ok("<?xml version=\"1.0\" encoding=\"UTF-8\" ?>\n<manifest:manifest xmlns:manifest=\"urn:oasis:names:tc:opendocument:xmlns:manifest:1.0\" manifest:version=\"1.3\"></manifest:manifest>".to_string())
    );
}

#[test]
fn package_description_names_the_content_document() {
    assert_eq!(write_manifest_rdf(), Ok(RDF.to_string()));
    assert_eq!(
        create_manifest_rdf(),
        Ok(entry("manifest.rdf", None, "application/rdf+xml", Some(RDF.as_bytes())))
    );
}

#[test]
fn metadata_are_brought_up_to_date() {
    let mut b = book();
    b.sheets.push(Sheet::new("empty"));
    b.metadata.title = "kept".to_string();
    b.metadata.generator = "someone else".to_string();
    b.metadata.date = Some(Timestamp { secs: 5, nanos: 6 });
    b.metadata.document_statistics.object_count = 4;
    sync(&mut b, NOW);
    assert_eq!(b.metadata.generator, "ods_grid 0.1.0");
    assert_eq!(b.metadata.title, "kept");
    assert_eq!(b.metadata.creation_date, Some(NOW));
    assert_eq!(b.metadata.date, Some(Timestamp { secs: 5, nanos: 6 }));
    assert_eq!(b.metadata.print_date, None);
    assert_eq!(b.metadata.editing_cycles, 1);
    assert_eq!(b.metadata.document_statistics.table_count, 2);
    assert_eq!(b.metadata.document_statistics.cell_count, 1);
    assert_eq!(b.metadata.document_statistics.object_count, 4);
    assert_eq!(b.manifest, Vec::new());
    assert_eq!(b.sheets.len(), 2);

    b.metadata.editing_cycles = 7;
    sync(&mut b, Timestamp { secs: 1, nanos: 0 });
    assert_eq!(b.metadata.editing_cycles, 7);
    assert_eq!(b.metadata.creation_date, Some(NOW));
}

#[test]
fn parts_of_the_package() {
    let mut b = book();
    sync(&mut b, NOW);
    create_manifest(&mut b).unwrap();
    let parts = package_parts(&b, true).unwrap();
    assert_eq!(
        parts,
        vec![
            file("mimetype", true, MIME),
            dir("META-INF"),
            file("META-INF/manifest.xml", false, MANIFEST),
            file("meta.xml", false, META),
            file("settings.xml", false, SETTINGS),
            file("styles.xml", false, &styles()),
            file("content.xml", false, &content()),
            file("manifest.rdf", false, RDF),
        ]
    );
    let parts = package_parts(&b, false).unwrap();
    assert!(parts.iter().all(|p| p.stored));
    assert_eq!(parts.len(), 8);
}

#[test]
fn what_else_the_manifest_names_comes_last() {
    let mut b = book();
    b.manifest.push(entry("Pictures/", None, "", None));
    b.manifest.push(entry("Pictures/a.txt", None, "text/plain", Some(b"picture")));
    b.manifest.push(entry("content.xml", None, "text/xml", Some(b"not this")));
    b.manifest.push(entry("nothing", None, "", None));
    let parts = package_parts(&b, true).unwrap();
    assert_eq!(parts.len(), 10);
    assert_eq!(parts[6].name, "content.xml");
    assert_eq!(parts[6].data, content().into_bytes());
    assert_eq!(
        &parts[7..],
        &[dir("Pictures/"), file("Pictures/a.txt", false, "picture"), file("nothing", false, "")][..]
    );
    let bytes = pack_parts(&parts, Vec::new()).unwrap();
    let found = files(bytes);
    assert_eq!(found[1], ("META-INF/".to_string(), true, String::new()));
    assert_eq!(
        &found[7..],
        &[
            ("Pictures/".to_string(), true, String::new()),
            ("Pictures/a.txt".to_string(), false, "picture".to_string()),
            ("nothing".to_string(), false, String::new()),
        ][..]
    );
}

#[test]
fn parts_of_a_workbook_that_is_not_in_order_are_refused() {
    let mut bad = book();
    bad.sheets[0].extent = (0, 0);
    assert_eq!(
        package_parts(&bad, true),
        Err(OdsError::Sheet { name: "s".to_string(), row: 0, col: 0, fault: Fault::CellOutside })
    );
    assert_eq!(
        package_parts(&WorkBook::new(), true),
        Err(OdsError::Ods("Workbook contains no sheets.".to_string()))
    );
}

#[test]
fn parts_of_a_workbook_with_a_date_without_text_are_refused() {
    let mut b = book();
    b.metadata.print_date = Some(Timestamp { secs: i64::MAX, nanos: 3 });
    assert_eq!(
        package_parts(&b, true),
        Err(OdsError::Date { at: None, secs: i64::MAX, nanos: 3 })
    );
    let mut c = book();
    c.sheets[0].cells[0].content.value = Some(Value::DateTime(Timestamp { secs: i64::MIN, nanos: 0 }));
    assert_eq!(
        package_parts(&c, true),
        Err(OdsError::Date { at: Some((0, 0)), secs: i64::MIN, nanos: 0 })
    );
}

#[test]
fn compressed_package_reads_back() {
    let mut b = book();
    let bytes = write_ods_at(&mut b, Vec::new(), NOW, true).unwrap();
    assert_eq!(&bytes[0..4], b"PK\x03\x04");
    assert_eq!(files(bytes), expected_files(false));
    assert_eq!(b.manifest, standard_entries());
    assert_eq!(b.metadata.creation_date, Some(NOW));
    assert_eq!(b.metadata.document_statistics.cell_count, 1);
}

#[test]
fn media_type_stands_at_the_start_of_the_package() {
    let bytes = write_ods_at(&mut book(), Vec::new(), NOW, true).unwrap();
    // the header of the first file is 30 bytes long, then come its name and its data
    assert_eq!(&bytes[30..38], b"mimetype");
    assert_eq!(&bytes[38..38 + MIME.len()], MIME.as_bytes());
}

#[test]
fn uncompressed_package_holds_the_text_as_it_is() {
    let bytes = write_ods_at(&mut book(), Vec::new(), NOW, false).unwrap();
    let all = String::from_utf8_lossy(&bytes).to_string();
    assert!(all.contains(&content()));
    assert!(all.contains(&styles()));
    assert!(all.contains(MANIFEST));
    assert!(all.contains(META));
    assert!(all.contains(SETTINGS));
    assert!(all.contains(RDF));
    assert_eq!(files(bytes), expected_files(true));
}

#[test]
fn package_is_the_same_each_time() {
    let first = write_ods_at(&mut book(), Vec::new(), NOW, true).unwrap();
    let second = write_ods_at(&mut book(), Vec::new(), NOW, true).unwrap();
    assert_eq!(first, second);
    let mut b = book();
    let third = write_ods_at(&mut b, Vec::new(), NOW, true).unwrap();
    let fourth = write_ods_at(&mut b, Vec::new(), Timestamp { secs: 0, nanos: 0 }, true).unwrap();
    assert_eq!(third, first);
    assert_eq!(fourth, first);
}

#[test]
fn package_is_written_from_the_start_of_the_buffer() {
    let fresh = write_ods_at(&mut book(), Vec::new(), NOW, true).unwrap();
    let over = write_ods_at(&mut book(), vec![0u8; 10], NOW, true).unwrap();
    assert_eq!(over, fresh);
    let long = write_ods_at(&mut book(), vec![7u8; fresh.len() + 5], NOW, true).unwrap();
    assert_eq!(&long[..fresh.len()], &fresh[..]);
    assert_eq!(&long[fresh.len()..], &[7u8; 5]);
}

#[test]
fn packages_by_the_clock_read_back() {
    let mut b = book();
    let bytes = write_ods_buf(&mut b, Vec::new()).unwrap();
    let now = b.metadata.creation_date.unwrap();
    assert!(now.secs > 1_600_000_000);
    assert_eq!(now.nanos, 0);
    assert_eq!(b.metadata.date, Some(now));
    let found = files(bytes);
    assert_eq!(found.len(), 8);
    assert_eq!(found[6], ("content.xml".to_string(), false, content()));
    assert_eq!(found[2], ("META-INF/manifest.xml".to_string(), false, MANIFEST.to_string()));

    let mut c = book();
    let bytes = write_ods_buf_uncompressed(&mut c, Vec::new()).unwrap();
    let found = files(bytes);
    assert_eq!(found.len(), 8);
    assert!(found.iter().all(|f| f.1));
    assert_eq!(found[5], ("styles.xml".to_string(), true, styles()));

    let mut d = book();
    d.metadata.creation_date = Some(NOW);
    d.metadata.date = Some(NOW);
    let mut ods = vec![9u8; 3];
    assert_eq!(write_ods_to(&mut d, &mut ods), Ok(()));
    assert_eq!(ods, write_ods_at(&mut book(), Vec::new(), NOW, true).unwrap());
}

#[test]
fn package_of_a_workbook_that_is_not_in_order_leaves_all_alone() {
    let mut ods = vec![1u8, 2, 3];
    let mut empty = WorkBook::new();
    assert_eq!(
        write_ods_to(&mut empty, &mut ods),
        Err(OdsError::Ods("Workbook contains no sheets.".to_string()))
    );
    assert_eq!(ods, vec![1u8, 2, 3]);
    assert_eq!(empty.metadata, WorkBook::new().metadata);
    assert_eq!(empty.manifest, Vec::new());
    assert_eq!(
        write_ods_buf(&mut empty, Vec::new()),
        Err(OdsError::Ods("Workbook contains no sheets.".to_string()))
    );
    assert_eq!(
        write_ods_buf_uncompressed(&mut empty, Vec::new()),
        Err(OdsError::Ods("Workbook contains no sheets.".to_string()))
    );
    assert_eq!(
        write_ods_at(&mut empty, Vec::new(), NOW, true),
        Err(OdsError::Ods("Workbook contains no sheets.".to_string()))
    );
    assert_eq!(empty.metadata, WorkBook::new().metadata);
    assert_eq!(empty.manifest, Vec::new());
}

#[test]
fn a_time_without_text_is_refused_after_the_workbook_was_made_ready() {
    let mut b = book();
    let never = Timestamp { secs: i64::MAX, nanos: 0 };
    assert_eq!(
        write_ods_at(&mut b, Vec::new(), never, true),
        Err(OdsError::Date { at: None, secs: i64::MAX, nanos: 0 })
    );
    assert_eq!(b.metadata.creation_date, Some(never));
    assert_eq!(b.manifest, standard_entries());
}

#[test]
fn parts_are_packed_in_their_order() {
    let parts = vec![
        file("b.txt", true, "second comes first"),
        dir("d"),
        file("a.txt", false, "ä ö ü"),
        file("empty", false, ""),
    ];
    let bytes = pack_parts(&parts, Vec::new()).unwrap();
    assert_eq!(
        files(bytes),
        vec![
            ("b.txt".to_string(), true, "second comes first".to_string()),
            ("d/".to_string(), true, String::new()),
            ("a.txt".to_string(), false, "ä ö ü".to_string()),
            ("empty".to_string(), false, String::new()),
        ]
    );
}

#[test]
fn files_of_the_package_carry_a_fixed_time() {
    let bytes = pack_parts(&vec![file("a", true, "x")], Vec::new()).unwrap();
    let mut archive = zip::ZipArchive::new(Cursor::new(bytes)).unwrap();
    let found = archive.by_index(0).unwrap();
    let time = found.last_modified();
    assert_eq!((time.year(), time.month(), time.day()), (1980, 1, 1));
    assert_eq!((time.hour(), time.minute(), time.second()), (0, 0, 0));
}

#[test]
fn errors_of_the_archive_writer_keep_their_message() {
    assert_eq!(zip_result(Ok::<u8, zip::result::ZipError>(7)), Ok(7));
    assert_eq!(
        zip_result::<()>(Err(zip::result::ZipError::FileNotFound)),
        Err(OdsError::Zip("specified file not found in archive".to_string()))
    );
    assert_eq!(
        zip_result::<()>(Err(zip::result::ZipError::UnsupportedArchive("x"))),
        Err(OdsError::Zip("unsupported Zip archive: x".to_string()))
    );
}

#[test]
fn paths_that_end_in_a_slash_are_directories() {
    assert!(entry("Pictures/", None, "", None).is_dir());
    assert!(entry("/", None, "", None).is_dir());
    assert!(!entry("Pictures/a", None, "", None).is_dir());
    assert!(!entry("", None, "", None).is_dir());
    assert!(entry("ä/", None, "", None).is_dir());
    assert!(!entry("/ä", None, "", None).is_dir());
    assert_eq!(Manifest::new("a", "b"), entry("a", None, "b", None));
    assert_eq!(Manifest::with_buf("a", "b", vec![1]), entry("a", None, "b", Some(&[1])));
}
