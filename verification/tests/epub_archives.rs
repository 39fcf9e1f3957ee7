use std::io::{Cursor, Write};

use ropds::parsers::epub::{epub_cover, parse, parse_container_xml, parse_opf, EpubError};

const CONTAINER: &str = r#"<?xml version="1.0"?>
<container version="1.0" xmlns="urn:oasis:names:tc:opendocument:xmlns:container">
  <rootfiles>
    <rootfile full-path="OEBPS/content.opf" media-type="application/oebps-package+xml"/>
  </rootfiles>
</container>"#;

const OPF: &str = r#"<?xml version="1.0" encoding="utf-8"?>
<package xmlns="http://www.idpf.org/2007/opf" version="2.0">
  <metadata xmlns:dc="http://purl.org/dc/elements/1.1/" xmlns:opf="http://www.idpf.org/2007/opf">
    <dc:title>The Caves of Steel</dc:title>
    <dc:creator opf:role="aut">Isaac Asimov</dc:creator>
    <dc:creator opf:role="ill">Somebody Else</dc:creator>
    <dc:subject>sf</dc:subject>
    <dc:language>en</dc:language>
    <dc:description>Robots &amp; detectives</dc:description>
    <meta name="calibre:series" content="Robots"/>
    <meta name="calibre:series_index" content="1"/>
    <meta name="cover" content="cover-image"/>
  </metadata>
  <manifest>
    <item id="cover-image" href="images/cover.jpg" media-type="image/jpeg"/>
  </manifest>
</package>"#;

const JPEG_BYTES: &[u8] = &[0xFF, 0xD8, 0xFF, 0xE0, 1, 2, 3];

fn make_zip(entries: &[(&str, &[u8])]) -> Vec<u8> {
    let mut out = Cursor::new(Vec::new());
    {
        let mut zip = zip::ZipWriter::new(&mut out);
        let opts = zip::write::SimpleFileOptions::default()
            .compression_method(zip::CompressionMethod::Stored);
        for (name, data) in entries {
            zip.start_file(*name, opts).unwrap();
            zip.write_all(data).unwrap();
        }
        zip.finish().unwrap();
    }
    out.into_inner()
}

fn sample_epub() -> Vec<u8> {
    make_zip(&[
        ("mimetype", b"application/epub+zip"),
        ("META-INF/container.xml", CONTAINER.as_bytes()),
        ("OEBPS/content.opf", OPF.as_bytes()),
        ("OEBPS/images/cover.jpg", JPEG_BYTES),
    ])
}

#[test]
fn container_names_the_package_document() {
    assert_eq!(
        parse_container_xml(CONTAINER.as_bytes()),
        Some("OEBPS/content.opf".to_string())
    );
    assert_eq!(parse_container_xml(b"<container/>"), None);
}

#[test]
fn package_metadata_is_read() {
    let m = parse_opf(OPF.as_bytes());
    assert_eq!(m.meta.title, "The Caves of Steel");
    assert_eq!(m.meta.authors, vec!["Isaac Asimov".to_string()]);
    assert_eq!(m.meta.genres, vec!["sf".to_string()]);
    assert_eq!(m.meta.lang, "en");
    assert_eq!(m.meta.series_title, Some("Robots".to_string()));
    assert_eq!(m.series_index_text, Some("1".to_string()));
}

#[test]
fn epub_archive_is_parsed_with_its_cover() {
    let m = match parse(sample_epub()) {
        Ok(m) => m,
        Err(_) => panic!("a well-formed EPUB must parse"),
    };
    assert_eq!(m.meta.title, "The Caves of Steel");
    assert_eq!(m.meta.cover_data, Some(JPEG_BYTES.to_vec()));
    assert_eq!(m.meta.cover_type, "image/jpeg");
}

#[test]
fn served_cover_of_an_epub() {
    let cover = epub_cover(sample_epub());
    assert_eq!(cover, Some((JPEG_BYTES.to_vec(), "image/jpeg".to_string())));
}

#[test]
fn invalid_epub_archives_are_errors() {
    assert!(matches!(parse(b"not-an-epub".to_vec()), Err(EpubError::Zip(_))));
    let no_opf = make_zip(&[("mimetype", b"application/epub+zip")]);
    assert!(matches!(parse(no_opf), Err(EpubError::NoOpf)));
}
