use content_registry::assets::archive_manager::{ArchiveManager, AssetError};
use content_registry::assets::AssetManager;
use std::io::{Cursor, Write};
use zip::write::SimpleFileOptions;
use zip::{CompressionMethod, ZipWriter};

fn archive(entries: &[(&str, &[u8])]) -> Vec<u8> {
    let mut writer = ZipWriter::new(Cursor::new(Vec::new()));
    for (name, data) in entries {
        writer.start_file(*name, SimpleFileOptions::default()).unwrap();
        writer.write_all(data).unwrap();
    }
    writer.finish().unwrap().into_inner()
}

fn stored_archive(name: &str, data: &[u8]) -> Vec<u8> {
    let mut writer = ZipWriter::new(Cursor::new(Vec::new()));
    let options = SimpleFileOptions::default().compression_method(CompressionMethod::Stored);
    writer.start_file(name, options).unwrap();
    writer.write_all(data).unwrap();
    writer.finish().unwrap().into_inner()
}

#[test]
fn absent_path_resolves_to_nothing() {
    let base = archive(&[("init.lua", b"return 1"), ("menus/main.lua", b"return {}")]);
    let mut index = ArchiveManager::create(vec![base]).unwrap();
    assert_eq!(index.get_resource_bytes("menus/other.lua".to_owned()), Ok(None));
    assert_eq!(index.get_resource_bytes("".to_owned()), Ok(None));
}

#[test]
fn no_archives_resolve_nothing() {
    let mut index = ArchiveManager::create(vec![]).unwrap();
    assert_eq!(index.get_resource_bytes("init.lua".to_owned()), Ok(None));
}

#[test]
fn indexed_path_resolves_to_its_bytes() {
    let base = archive(&[("init.lua", b"first"), ("menus/main.lua", b"second")]);
    let mut index = ArchiveManager::create(vec![base]).unwrap();
    assert_eq!(index.get_resource_bytes("init.lua".to_owned()), Ok(Some(b"first".to_vec())));
    assert_eq!(
        index.get_resource_bytes("menus/main.lua".to_owned()),
        Ok(Some(b"second".to_vec()))
    );
    assert_eq!(index.get_resource_bytes("init.lua".to_owned()), Ok(Some(b"first".to_vec())));
}

#[test]
fn later_archive_wins() {
    let base = archive(&[("menus/main.lua", b"base"), ("only_base.txt", b"kept")]);
    let overlay = archive(&[("menus/main.lua", b"overlay")]);
    let mut index = ArchiveManager::create(vec![base.clone(), overlay.clone()]).unwrap();
    assert_eq!(
        index.get_resource_bytes("menus/main.lua".to_owned()),
        Ok(Some(b"overlay".to_vec()))
    );
    assert_eq!(index.get_resource_bytes("only_base.txt".to_owned()), Ok(Some(b"kept".to_vec())));
    let mut swapped = ArchiveManager::create(vec![overlay, base]).unwrap();
    assert_eq!(
        swapped.get_resource_bytes("menus/main.lua".to_owned()),
        Ok(Some(b"base".to_vec()))
    );
}

#[test]
fn parent_traversal_fails_construction() {
    let good = archive(&[("init.lua", b"return 1")]);
    let bad = archive(&[("fine.txt", b"x"), ("../escape.lua", b"y")]);
    assert_eq!(ArchiveManager::create(vec![good, bad]).err(), Some(AssetError::InvalidEntryPath));
}

#[test]
fn absolute_name_is_never_a_key() {
    let rooted = archive(&[("/etc/escape.lua", b"y")]);
    match ArchiveManager::create(vec![rooted]) {
        Ok(mut index) => {
            assert_eq!(index.get_resource_bytes("/etc/escape.lua".to_owned()), Ok(None));
            assert_eq!(
                index.get_resource_bytes("etc/escape.lua".to_owned()),
                Ok(Some(b"y".to_vec()))
            );
        }
        Err(e) => assert_eq!(e, AssetError::InvalidEntryPath),
    }
}

#[test]
fn traversal_after_descent_fails_construction() {
    let bad = archive(&[("a/../../escape.lua", b"y")]);
    assert_eq!(ArchiveManager::create(vec![bad]).err(), Some(AssetError::InvalidEntryPath));
    let inside = archive(&[("a/../kept.lua", b"z")]);
    let mut index = ArchiveManager::create(vec![inside]).unwrap();
    assert_eq!(index.get_resource_bytes("kept.lua".to_owned()), Ok(Some(b"z".to_vec())));
}

#[test]
fn bytes_that_are_no_archive_fail_construction() {
    let good = archive(&[("init.lua", b"return 1")]);
    assert_eq!(
        ArchiveManager::create(vec![good, b"not an archive".to_vec()]).err(),
        Some(AssetError::MalformedArchive)
    );
    assert_eq!(ArchiveManager::create(vec![Vec::new()]).err(), Some(AssetError::MalformedArchive));
}

#[test]
fn unopened_source_comes_before_invalid_name() {
    let bad_name = archive(&[("../escape.lua", b"y")]);
    assert_eq!(
        ArchiveManager::create(vec![bad_name, b"junk".to_vec()]).err(),
        Some(AssetError::MalformedArchive)
    );
}

#[test]
fn damaged_payload_is_corrupt_resource() {
    let mut bytes = stored_archive("data.bin", b"PAYLOAD-PAYLOAD");
    let at = bytes.windows(7).position(|w| w == b"PAYLOAD").unwrap();
    bytes[at] = b'X';
    let mut index = ArchiveManager::create(vec![bytes.clone()]).unwrap();
    assert_eq!(
        index.get_resource_bytes("data.bin".to_owned()),
        Err(AssetError::CorruptResource)
    );
    assert_eq!(index.get_resource_bytes("other.bin".to_owned()), Ok(None));
    let mut facade = AssetManager::new(vec![bytes]).unwrap();
    assert_eq!(facade.get_file_raw("data.bin".to_owned()), None);
}

#[test]
fn facade_hands_out_bytes_or_nothing() {
    let base = archive(&[("init.lua", b"hello")]);
    let mut facade = AssetManager::new(vec![base]).unwrap();
    assert_eq!(facade.get_file_raw("init.lua".to_owned()), Some(b"hello".to_vec()));
    assert_eq!(facade.get_file_raw("missing.lua".to_owned()), None);
}

#[test]
fn facade_surfaces_construction_errors() {
    assert_eq!(AssetManager::new(vec![b"junk".to_vec()]).err(), Some(AssetError::MalformedArchive));
    let bad = archive(&[("../escape.lua", b"y")]);
    assert_eq!(AssetManager::new(vec![bad]).err(), Some(AssetError::InvalidEntryPath));
}
