use std::io::{Cursor, Write};

use ropds::scanner::zipbooks::{
    first_parsed, read_selected_zip_entries, read_zip_entries, validate_zip_integrity,
};

fn make_zip(entries: &[(&str, &[u8])]) -> Vec<u8> {
    let mut out = Cursor::new(Vec::new());
    {
        let mut zip = zip::ZipWriter::new(&mut out);
        let opts = zip::write::SimpleFileOptions::default()
            .compression_method(zip::CompressionMethod::Stored);
        for (name, data) in entries {
            zip.start_file(*name, opts).unwrap();
            zip.write_all(data).unwrap();
        }
        zip.finish().unwrap();
    }
    out.into_inner()
}

#[test]
fn test_read_zip_entries_and_validate_integrity() {
    let data = make_zip(&[
        ("a.fb2", b"one"),
        ("b.txt", b"two"),
        ("nested/c.epub", b"three"),
    ]);
    let exts = vec!["fb2".to_string(), "epub".to_string()];
    let entries = match read_zip_entries(data.clone(), &exts, false) {
        Ok(e) => e,
        Err(_) => panic!("a valid archive must be read"),
    };
    assert_eq!(entries.len(), 2);
    assert!(entries.iter().any(|e| e.filename == "a.fb2"));
    assert!(entries.iter().any(|e| e.filename == "c.epub" && e.extension == "epub" && e.data == b"three"));
    assert!(matches!(validate_zip_integrity(data), Ok(true)));
}

#[test]
fn test_zip_helpers_invalid_archive_errors() {
    let exts = vec!["fb2".to_string()];
    assert!(read_zip_entries(b"not-a-zip".to_vec(), &exts, false).is_err());
    assert!(validate_zip_integrity(b"not-a-zip".to_vec()).is_err());
}

#[test]
fn upper_case_extensions_match_and_sizes_are_declared() {
    let data = make_zip(&[("BOOK.FB2", b"12345")]);
    let exts = vec!["fb2".to_string()];
    let entries = match read_zip_entries(data, &exts, true) {
        Ok(e) => e,
        Err(_) => panic!("a valid archive must be read"),
    };
    assert_eq!(entries.len(), 1);
    assert_eq!(entries[0].filename, "BOOK.FB2");
    assert_eq!(entries[0].extension, "fb2");
    assert_eq!(entries[0].declared_size, 5);
}

#[test]
fn selected_entries_keep_every_entry_of_the_needed_names() {
    let data = make_zip(&[
        ("x/a.fb2", b"first"),
        ("y/a.fb2", b"second"),
        ("b.fb2", b"other"),
        ("c.fb2", b"unwanted"),
    ]);
    let exts = vec!["fb2".to_string()];
    let needed = vec!["a.fb2".to_string(), "b.fb2".to_string()];
    let entries = match read_selected_zip_entries(data, &exts, &needed, false) {
        Ok(e) => e,
        Err(_) => panic!("a valid archive must be read"),
    };
    assert_eq!(entries.len(), 3);
    assert_eq!(entries[0].filename, "a.fb2");
    assert_eq!(entries[0].data, b"first".to_vec());
    assert_eq!(entries[1].data, b"second".to_vec());
    assert_eq!(entries[2].filename, "b.fb2");
}

#[test]
fn first_parsed_picks_the_first_entry_of_each_name_that_parsed() {
    let names = vec!["a.fb2".to_string(), "a.fb2".to_string(), "b.fb2".to_string(), "a.fb2".to_string()];
    assert_eq!(first_parsed(&names, &vec![false, true, true, true]), vec![1, 2]);
    assert_eq!(first_parsed(&names, &vec![true, true, false, true]), vec![0]);
    assert_eq!(first_parsed(&names, &vec![false, false, false, false]), Vec::<usize>::new());
}
