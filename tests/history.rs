use rustyclip::classify::{
    binary_preview_and_mime, generate_preview_and_mime_type, jpeg_segment_lengths_ok, ClassifyError,
};
use rustyclip::commands::{
    clear_database, get_item, list_items, parse_query, remove_item, store_item, CommandError,
    QueryError,
};
use rustyclip::size::{decimal_string, human_readable_size};
use rustyclip::store::{content_key_of, AddOutcome, ClipboardItem, DataManager, StoreError};

fn empty_history() -> DataManager {
    DataManager::new(
        String::from("history/clipboard_data"),
        String::from("history/clipboard_index"),
        Vec::new(),
    )
    .unwrap()
}

fn item(key: &str, preview: &str) -> ClipboardItem {
    ClipboardItem {
        file_name: key.to_string(),
        preview: preview.to_string(),
        mime_type: "text/plain".to_string(),
    }
}

fn previews(dm: &DataManager) -> Vec<String> {
    dm.manifest_data.iter().map(|i| i.preview.clone()).collect()
}

#[test]
fn adding_identical_bytes_twice_keeps_one_entry() {
    let mut dm = empty_history();
    assert_eq!(dm.add_item(b"hello"), Ok(AddOutcome::Added));
    assert_eq!(dm.add_item(b"hello"), Ok(AddOutcome::Duplicate));
    assert_eq!(dm.manifest_data.len(), 1);
    assert_eq!(dm.manifest_data[0].file_name, content_key_of(b"hello"));
}

#[test]
fn re_adding_an_older_payload_does_not_move_it() {
    let mut dm = empty_history();
    dm.add_item(b"first").unwrap();
    dm.add_item(b"second").unwrap();
    assert_eq!(dm.add_item(b"first"), Ok(AddOutcome::Duplicate));
    assert_eq!(previews(&dm), vec!["second", "first"]);
}

#[test]
fn list_shows_newest_first() {
    let mut dm = empty_history();
    dm.add_item(b"A").unwrap();
    dm.add_item(b"B").unwrap();
    dm.add_item(b"C").unwrap();
    assert_eq!(list_items(&dm), vec!["0: C", "1: B", "2: A"]);
}

#[test]
fn list_folds_previews_to_one_line() {
    let mut dm = empty_history();
    dm.add_item(b"line one\nline two\n").unwrap();
    assert_eq!(list_items(&dm), vec!["0: line oneline two"]);
}

#[test]
fn get_finds_the_added_entry() {
    let mut dm = empty_history();
    dm.add_item(b"payload").unwrap();
    dm.add_item(b"other").unwrap();
    assert_eq!(get_item(&dm, "1"), Ok(Some(1)));
    let entry = &dm.manifest_data[1];
    assert_eq!(entry.file_name, content_key_of(b"payload"));
    assert_eq!(entry.mime_type, "text/plain");
    assert_eq!(entry.preview, "payload");
}

#[test]
fn a_listed_line_is_a_query_for_its_entry() {
    let mut dm = empty_history();
    dm.add_item(b"x").unwrap();
    dm.add_item(b"y").unwrap();
    let lines = list_items(&dm);
    assert_eq!(get_item(&dm, &lines[1]), Ok(Some(1)));
}

#[test]
fn get_with_empty_query_does_nothing() {
    let dm = empty_history();
    assert_eq!(get_item(&dm, ""), Ok(None));
}

#[test]
fn get_past_the_end_is_an_invalid_position() {
    let mut dm = empty_history();
    dm.add_item(b"only").unwrap();
    assert_eq!(
        get_item(&dm, "1"),
        Err(CommandError::Store(StoreError::InvalidPosition))
    );
}

#[test]
fn get_with_a_non_numeric_query_fails() {
    let dm = empty_history();
    assert_eq!(
        get_item(&dm, "first: note"),
        Err(CommandError::Query(QueryError::NotAnIndex))
    );
}

#[test]
fn removal_shifts_later_entries() {
    let mut dm = empty_history();
    dm.add_item(b"c").unwrap();
    dm.add_item(b"b").unwrap();
    dm.add_item(b"a").unwrap();
    let removed = dm.remove_item(1).unwrap();
    assert_eq!(removed.preview, "b");
    assert_eq!(removed.file_name, content_key_of(b"b"));
    assert_eq!(previews(&dm), vec!["a", "c"]);
    assert!(dm.manifest_data.iter().all(|i| i.file_name != removed.file_name));
}

#[test]
fn remove_out_of_range_changes_nothing() {
    let mut dm = empty_history();
    dm.add_item(b"a").unwrap();
    assert_eq!(dm.remove_item(1).unwrap_err(), StoreError::InvalidPosition);
    assert_eq!(previews(&dm), vec!["a"]);
}

#[test]
fn remove_by_query() {
    let mut dm = empty_history();
    dm.add_item(b"c").unwrap();
    dm.add_item(b"b").unwrap();
    let removed = remove_item(&mut dm, "1: c").unwrap().unwrap();
    assert_eq!(removed.preview, "c");
    assert_eq!(previews(&dm), vec!["b"]);
    assert!(remove_item(&mut dm, "").unwrap().is_none());
    assert_eq!(previews(&dm), vec!["b"]);
    assert_eq!(
        remove_item(&mut dm, "5").unwrap_err(),
        CommandError::Store(StoreError::InvalidPosition)
    );
    assert_eq!(
        remove_item(&mut dm, "-1").unwrap_err(),
        CommandError::Query(QueryError::NotAnIndex)
    );
    assert_eq!(previews(&dm), vec!["b"]);
}

#[test]
fn clear_empties_everything() {
    let mut dm = empty_history();
    dm.add_item(b"a").unwrap();
    dm.add_item(b"b").unwrap();
    clear_database(&mut dm);
    assert!(list_items(&dm).is_empty());
    assert!(dm.manifest_data.is_empty());
    dm.clear_db();
    assert!(dm.manifest_data.is_empty());
}

#[test]
fn store_item_adds_a_payload() {
    let mut dm = empty_history();
    assert_eq!(store_item(&mut dm, b"stored"), Ok(AddOutcome::Added));
    assert_eq!(store_item(&mut dm, b"stored"), Ok(AddOutcome::Duplicate));
    assert_eq!(previews(&dm), vec!["stored"]);
}

#[test]
fn a_manifest_with_a_repeated_key_is_refused() {
    let r = DataManager::new(
        String::from("d"),
        String::from("m"),
        vec![item("1", "a"), item("2", "b"), item("1", "c")],
    );
    assert_eq!(r.unwrap_err(), StoreError::DuplicateKey);
    let ok = DataManager::new(
        String::from("d"),
        String::from("m"),
        vec![item("1", "a"), item("2", "b")],
    )
    .unwrap();
    assert_eq!(previews(&ok), vec!["a", "b"]);
    assert_eq!(ok.data_folder, "d");
    assert_eq!(ok.manifest_file, "m");
}

#[test]
fn text_preview_is_truncated_to_one_hundred_characters() {
    let data = "a".repeat(500);
    let (preview, mime) = generate_preview_and_mime_type(data.as_bytes()).unwrap();
    assert_eq!(preview, "a".repeat(100));
    assert_eq!(mime, "text/plain");
}

#[test]
fn text_preview_counts_characters_not_bytes() {
    let data = "é".repeat(150);
    let (preview, _) = generate_preview_and_mime_type(data.as_bytes()).unwrap();
    assert_eq!(preview, "é".repeat(100));
}

#[test]
fn text_preview_is_trimmed() {
    let (preview, mime) = generate_preview_and_mime_type(b"  \t hi there \n").unwrap();
    assert_eq!(preview, "hi there");
    assert_eq!(mime, "text/plain");
}

#[test]
fn empty_payload_is_empty_text() {
    let (preview, mime) = generate_preview_and_mime_type(b"").unwrap();
    assert_eq!(preview, "");
    assert_eq!(mime, "text/plain");
}

#[test]
fn unknown_binary_preview() {
    let data: Vec<u8> = (0x80u8..0x90u8).collect();
    assert_eq!(data.len(), 16);
    let (preview, mime) = generate_preview_and_mime_type(&data).unwrap();
    assert_eq!(preview, "[[UNKNOWN 16.00 B]]");
    assert_eq!(mime, "application/octet-stream");
}

#[test]
fn sniffed_binary_preview_has_only_the_size() {
    let data: Vec<u8> = vec![0x50, 0x4B, 0x03, 0x04, 0xFF, 0xFF, 0xFF, 0xFF];
    let (preview, mime) = generate_preview_and_mime_type(&data).unwrap();
    assert_eq!(preview, "[[binary data 8.00 B]]");
    assert_eq!(mime, "application/zip");
}

fn png_header(width: u32, height: u32) -> Vec<u8> {
    let mut data = vec![0x89, 0x50, 0x4E, 0x47, 0x0D, 0x0A, 0x1A, 0x0A];
    data.extend_from_slice(&13u32.to_be_bytes());
    data.extend_from_slice(b"IHDR");
    data.extend_from_slice(&width.to_be_bytes());
    data.extend_from_slice(&height.to_be_bytes());
    data.extend_from_slice(&[8, 6, 0, 0, 0]);
    data.extend_from_slice(&[0, 0, 0, 0]);
    data.extend_from_slice(&0u32.to_be_bytes());
    data.extend_from_slice(b"IEND");
    data.extend_from_slice(&[0, 0, 0, 0]);
    data
}

#[test]
fn image_preview_has_format_and_dimensions() {
    let data = png_header(640, 480);
    let (preview, mime) = generate_preview_and_mime_type(&data).unwrap();
    assert_eq!(preview, "[[binary data 45.00 B png 640x480]]");
    assert_eq!(mime, "image/png");
}

#[test]
fn unreadable_image_header_is_an_error() {
    let data: Vec<u8> = vec![0x89, 0x50, 0x4E, 0x47, 0x0D, 0x0A, 0x1A, 0x0A, 0xFF, 0xFF];
    assert_eq!(
        generate_preview_and_mime_type(&data),
        Err(ClassifyError::ImageHeader)
    );
    let mut dm = empty_history();
    assert_eq!(
        dm.add_item(&data),
        Err(StoreError::Classify(ClassifyError::ImageHeader))
    );
    assert!(dm.manifest_data.is_empty());
}

#[test]
fn query_parsing_reads_the_leading_index() {
    assert_eq!(parse_query("2: some note"), Ok(2));
    assert_eq!(parse_query("2"), Ok(2));
    assert_eq!(parse_query("  7  "), Ok(7));
    assert_eq!(parse_query("+3"), Ok(3));
    assert_eq!(parse_query("007: x"), Ok(7));
    assert_eq!(parse_query("18446744073709551615"), Ok(usize::MAX));
}

#[test]
fn query_parsing_rejects_what_is_not_an_index() {
    assert_eq!(parse_query("abc"), Err(QueryError::NotAnIndex));
    assert_eq!(parse_query(": note"), Err(QueryError::NotAnIndex));
    assert_eq!(parse_query("+"), Err(QueryError::NotAnIndex));
    assert_eq!(parse_query("-1"), Err(QueryError::NotAnIndex));
    assert_eq!(parse_query("1 2"), Err(QueryError::NotAnIndex));
    assert_eq!(parse_query("18446744073709551616"), Err(QueryError::NotAnIndex));
}

#[test]
fn human_readable_sizes() {
    assert_eq!(human_readable_size(0), "0.00 B");
    assert_eq!(human_readable_size(16), "16.00 B");
    assert_eq!(human_readable_size(1023), "1023.00 B");
    assert_eq!(human_readable_size(1024), "1.00 KB");
    assert_eq!(human_readable_size(2048), "2.00 KB");
    assert_eq!(human_readable_size(1536), "1.50 KB");
    assert_eq!(human_readable_size(1048576), "1.00 MB");
    assert_eq!(human_readable_size(1 << 60), "1.00 EB");
    assert_eq!(human_readable_size(usize::MAX), "16.00 EB");
}

#[test]
fn human_readable_size_agrees_with_float_formatting() {
    const UNITS: [&str; 7] = ["B", "KB", "MB", "GB", "TB", "PB", "EB"];
    let mut samples: Vec<usize> = (0..5000).collect();
    samples.extend((0..5000).map(|i| i * 997 + 1152));
    samples.extend((0..40).map(|k| (1usize << k) + 3));
    for n in samples {
        let mut size = n as f64;
        let mut unit = 0;
        while size >= 1024.0 && unit < UNITS.len() - 1 {
            size /= 1024.0;
            unit += 1;
        }
        assert_eq!(human_readable_size(n), format!("{:.2} {}", size, UNITS[unit]), "{n}");
    }
}

#[test]
fn decimal_rendering() {
    assert_eq!(decimal_string(0), "0");
    assert_eq!(decimal_string(9), "9");
    assert_eq!(decimal_string(10), "10");
    assert_eq!(decimal_string(1234567890), "1234567890");
    assert_eq!(decimal_string(u128::MAX), u128::MAX.to_string());
}

#[test]
fn content_key_is_the_decimal_xxh3_hash() {
    let data = b"some clipboard text";
    assert_eq!(
        content_key_of(data),
        xxhash_rust::const_xxh3::xxh3_64(data).to_string()
    );
    assert_ne!(content_key_of(b"a"), content_key_of(b"b"));
}

#[test]
fn store_item_reports_an_unreadable_image() {
    let mut dm = empty_history();
    let data: Vec<u8> = vec![0x89, 0x50, 0x4E, 0x47, 0x0D, 0x0A, 0x1A, 0x0A, 0xFF, 0xFF];
    assert_eq!(
        store_item(&mut dm, &data),
        Err(StoreError::Classify(ClassifyError::ImageHeader))
    );
    assert!(dm.manifest_data.is_empty());
}

#[test]
fn jpeg_with_a_short_segment_length_is_an_image_header_error() {
    let data: Vec<u8> = vec![0xFF, 0xD8, 0xFF, 0xE0, 0x00, 0x00];
    assert!(!jpeg_segment_lengths_ok(&data));
    assert_eq!(
        generate_preview_and_mime_type(&data),
        Err(ClassifyError::ImageHeader)
    );
    let after_app0: Vec<u8> = vec![0xFF, 0xD8, 0xFF, 0xE0, 0x00, 0x04, 0x00, 0x00, 0xFF, 0xC0, 0x00, 0x01];
    assert!(!jpeg_segment_lengths_ok(&after_app0));
    assert_eq!(
        generate_preview_and_mime_type(&after_app0),
        Err(ClassifyError::ImageHeader)
    );
}

fn jpeg_with_frame(width: u16, height: u16) -> Vec<u8> {
    let mut data = vec![0xFF, 0xD8];
    data.extend_from_slice(&[0xFF, 0xE0, 0x00, 0x04, 0x4A, 0x46]);
    data.extend_from_slice(&[0xFF, 0xFF, 0xC0, 0x00, 0x11, 0x08]);
    data.extend_from_slice(&height.to_be_bytes());
    data.extend_from_slice(&width.to_be_bytes());
    data.extend_from_slice(&[0x03, 1, 2, 3, 4, 5, 6, 7, 8, 9]);
    data
}

#[test]
fn jpeg_dimensions_are_read_after_other_segments() {
    let data = jpeg_with_frame(32, 16);
    assert!(jpeg_segment_lengths_ok(&data));
    let (preview, mime) = generate_preview_and_mime_type(&data).unwrap();
    assert_eq!(preview, format!("[[binary data {}.00 B jpeg 32x16]]", data.len()));
    assert_eq!(mime, "image/jpeg");
}

#[test]
fn jpeg_length_check_passes_what_is_not_jpeg() {
    assert!(jpeg_segment_lengths_ok(b""));
    assert!(jpeg_segment_lengths_ok(&[0xFF]));
    assert!(jpeg_segment_lengths_ok(&[0x89, 0x50, 0x00, 0x00]));
    assert!(jpeg_segment_lengths_ok(&[0xFF, 0xD8, 0xFF, 0xE0, 0x00]));
}

#[test]
fn binary_previews_from_sniffed_values() {
    assert_eq!(
        binary_preview_and_mime(16, None, None),
        Ok(("[[UNKNOWN 16.00 B]]".to_string(), "application/octet-stream".to_string()))
    );
    assert_eq!(
        binary_preview_and_mime(2048, Some("application/zip".to_string()), Some((1, 2))),
        Ok(("[[binary data 2.00 KB]]".to_string(), "application/zip".to_string()))
    );
    assert_eq!(
        binary_preview_and_mime(45, Some("image/png".to_string()), Some((640, 480))),
        Ok(("[[binary data 45.00 B png 640x480]]".to_string(), "image/png".to_string()))
    );
    assert_eq!(
        binary_preview_and_mime(1536, Some("image/vnd.adobe.photoshop".to_string()), Some((3, 4))),
        Ok((
            "[[binary data 1.50 KB vnd.adobe.photoshop 3x4]]".to_string(),
            "image/vnd.adobe.photoshop".to_string()
        ))
    );
    assert_eq!(
        binary_preview_and_mime(10, Some("image/png".to_string()), None),
        Err(ClassifyError::ImageHeader)
    );
}

#[test]
fn a_stored_record_keeps_its_payload_after_later_operations() {
    let mut dm = empty_history();
    let data = jpeg_with_frame(8, 8);
    dm.add_item(&data).unwrap();
    dm.add_item(b"later").unwrap();
    dm.add_item(b"latest").unwrap();
    dm.remove_item(0).unwrap();
    assert_eq!(get_item(&dm, "1"), Ok(Some(1)));
    let entry = &dm.manifest_data[1];
    assert_eq!(entry.file_name, xxhash_rust::const_xxh3::xxh3_64(&data).to_string());
    assert_eq!(entry.mime_type, generate_preview_and_mime_type(&data).unwrap().1);
}

#[test]
fn trimming_agrees_with_str_trim() {
    let samples = [
        "",
        "   ",
        "abc",
        "  abc  ",
        "\t\n\r\u{0B}\u{0C}x y\u{85}\u{A0}",
        "\u{1680}\u{2000}\u{200A}mid\u{2028}\u{2029}\u{202F}\u{205F}\u{3000}",
        "\u{200B}zero width is kept\u{200B}",
        " é ",
    ];
    for s in samples {
        assert_eq!(rustyclip::text::trim_text(s), s.trim(), "{s:?}");
    }
}
