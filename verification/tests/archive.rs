use manga_fetcher::archive::{
    archive_name, pack_entries, select_entries, write_zip, ArchiveEntry, PackagingError,
    SourceFile, ENTRY_MODE,
};
use std::io::{Cursor, Read};

fn file(name: &str, contents: &[u8]) -> SourceFile {
    SourceFile { name: name.to_string(), is_file: true, contents: Some(contents.to_vec()) }
}

fn directory(name: &str) -> SourceFile {
    SourceFile { name: name.to_string(), is_file: false, contents: None }
}

fn unreadable(name: &str) -> SourceFile {
    SourceFile { name: name.to_string(), is_file: true, contents: None }
}

fn read_back(bytes: Vec<u8>) -> Vec<(String, Vec<u8>, zip::CompressionMethod, Option<u32>)> {
    let mut archive = zip::ZipArchive::new(Cursor::new(bytes)).unwrap();
    let mut entries = Vec::new();
    for i in 0..archive.len() {
        let mut entry = archive.by_index(i).unwrap();
        let mut data = Vec::new();
        entry.read_to_end(&mut data).unwrap();
        entries.push((entry.name().to_string(), data, entry.compression(), entry.unix_mode()));
    }
    entries
}

#[test]
fn archive_is_named_after_the_chapter() {
    assert_eq!(archive_name("Vol. 1 Ch. 2"), "Vol. 1 Ch. 2.cbz");
    assert_eq!(archive_name(""), ".cbz");
}

#[test]
fn packed_entries_come_back_stored_and_in_order() {
    let entries = vec![
        ArchiveEntry { name: "0.png".to_string(), data: vec![1, 2, 3] },
        ArchiveEntry { name: "1.jpg".to_string(), data: vec![] },
        ArchiveEntry { name: "2.png".to_string(), data: vec![9; 5000] },
    ];
    let bytes = pack_entries(&entries).ok().unwrap();
    let back = read_back(bytes);
    assert_eq!(back.len(), 3);
    for (entry, (name, data, method, mode)) in entries.iter().zip(back.iter()) {
        assert_eq!(&entry.name, name);
        assert_eq!(&entry.data, data);
        assert_eq!(*method, zip::CompressionMethod::Stored);
        assert_eq!(mode.map(|m| m & 0o777), Some(ENTRY_MODE));
    }
}

#[test]
fn packing_is_repeatable() {
    let entries = vec![
        ArchiveEntry { name: "0.png".to_string(), data: vec![1, 2, 3] },
        ArchiveEntry { name: "1.png".to_string(), data: vec![4, 5] },
    ];
    let first = pack_entries(&entries).ok().unwrap();
    let second = pack_entries(&entries).ok().unwrap();
    assert_eq!(first, second);
    let other = vec![ArchiveEntry { name: "0.png".to_string(), data: vec![1, 2, 4] }];
    assert_ne!(pack_entries(&other).ok().unwrap(), first);
}

#[test]
fn entries_carry_the_fixed_date_and_long_names() {
    let long = "n".repeat(300);
    let entries = vec![
        ArchiveEntry { name: long.clone(), data: vec![1] },
        ArchiveEntry { name: "日本語.png".to_string(), data: vec![2, 3] },
    ];
    let bytes = pack_entries(&entries).ok().unwrap();
    let mut archive = zip::ZipArchive::new(Cursor::new(bytes)).unwrap();
    assert_eq!(archive.len(), 2);
    for i in 0..2 {
        let entry = archive.by_index(i).unwrap();
        assert_eq!(entry.name(), entries[i].name);
        let date = entry.last_modified();
        assert_eq!((date.year(), date.month(), date.day()), (1980, 1, 1));
        assert_eq!((date.hour(), date.minute(), date.second()), (0, 0, 0));
        assert_eq!(entry.size(), entries[i].data.len() as u64);
    }
}

#[test]
fn every_readable_directory_is_packed() {
    let directories: Vec<Vec<SourceFile>> = vec![
        vec![],
        vec![directory("only")],
        vec![file("a", b""), file("a", b"same name twice")],
        (0..200).map(|i| file(&format!("{i:03}.png"), &[i as u8; 64])).collect(),
    ];
    for files in directories {
        let count = files.iter().filter(|f| f.is_file).count();
        let archive = write_zip(files, "chapter").ok().unwrap();
        assert_eq!(archive.entry_names.len(), count);
        assert_eq!(read_back(archive.bytes).len(), count);
    }
}

#[test]
fn an_archive_without_entries_is_an_archive() {
    let bytes = pack_entries(&Vec::new()).ok().unwrap();
    assert!(read_back(bytes).is_empty());
}

#[test]
fn selection_takes_the_regular_files_in_name_order() {
    let files = vec![
        file("10.png", b"ten"),
        directory("thumbs"),
        file("02.png", b"two"),
        file("00.png", b"zero"),
        directory("00"),
        file("01.jpg", b"one"),
    ];
    let entries = select_entries(files).ok().unwrap();
    let names: Vec<&str> = entries.iter().map(|e| e.name.as_str()).collect();
    assert_eq!(names, vec!["00.png", "01.jpg", "02.png", "10.png"]);
    let data: Vec<&[u8]> = entries.iter().map(|e| e.data.as_slice()).collect();
    assert_eq!(data, vec![&b"zero"[..], &b"one"[..], &b"two"[..], &b"ten"[..]]);
}

#[test]
fn selection_fails_on_a_file_that_could_not_be_read() {
    let files = vec![file("0.png", b"zero"), unreadable("1.png"), file("2.png", b"two")];
    match select_entries(files) {
        Err(PackagingError::SourceUnreadable { name }) => assert_eq!(name, "1.png"),
        _ => panic!("an unreadable file must fail the selection"),
    }
    let only_directories = vec![directory("a"), directory("b")];
    assert!(select_entries(only_directories).ok().unwrap().is_empty());
}

#[test]
fn write_zip_packs_a_working_directory() {
    let files = vec![
        file("2.png", b"third page"),
        file("0.png", b"first page"),
        directory("leftover"),
        file("1.jpg", b"second page"),
    ];
    let archive = write_zip(files, "Chapter 7").ok().unwrap();
    assert_eq!(archive.file_name, "Chapter 7.cbz");
    assert_eq!(archive.entry_names, vec!["0.png", "1.jpg", "2.png"]);
    let back = read_back(archive.bytes);
    let names: Vec<&str> = back.iter().map(|e| e.0.as_str()).collect();
    assert_eq!(names, vec!["0.png", "1.jpg", "2.png"]);
    assert_eq!(back[0].1, b"first page");
    assert_eq!(back[1].1, b"second page");
    assert_eq!(back[2].1, b"third page");
}

#[test]
fn write_zip_fails_before_packing_where_a_file_is_unreadable() {
    let files = vec![file("0.png", b"zero"), unreadable("1.png")];
    assert!(matches!(
        write_zip(files, "Chapter 7"),
        Err(PackagingError::SourceUnreadable { .. })
    ));
}
