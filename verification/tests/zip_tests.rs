use std::io::Cursor;
use std::io::Write;

use fsa::archive::ZipFile;
use fsa::store::{ArchiveStore, NodeStore};
use fsa::{FilesystemObject, FilesystemObjectRaw, FsError, SeekFrom};

use zip::write::SimpleFileOptions;
use zip::ZipWriter;

const ALPHA: &[u8] = b"alpha-entry: the quick brown fox jumps over the lazy dog, 0123456789";
const BETA: &[u8] = b"beta-entry: pack my box with five dozen liquor jugs";

fn build_archive() -> Vec<u8> {
    let mut w = ZipWriter::new(Cursor::new(Vec::new()));
    let opts = SimpleFileOptions::default();
    w.start_file("a.txt", opts).unwrap();
    w.write_all(ALPHA).unwrap();
    w.start_file("b.txt", opts).unwrap();
    w.write_all(BETA).unwrap();
    w.add_directory("sub", opts).unwrap();
    w.finish().unwrap().into_inner()
}

fn mount_archive() -> (NodeStore, ArchiveStore, usize) {
    let mut store = NodeStore::new();
    let mut archives = ArchiveStore::new();
    let root = store.new_root("/tmp");
    let d = store.new_dir(root, "root").unwrap().handle();
    let carrier = store.new_file(d, "data.zip", 0).unwrap().handle();
    let zdir = store
        .new_zip_directory(&mut archives, carrier, build_archive())
        .unwrap();
    (store, archives, zdir)
}

fn read_all(store: &mut NodeStore, archives: &mut ArchiveStore, h: usize) -> Vec<u8> {
    let mut out = Vec::new();
    loop {
        let chunk = store.read_zip(archives, h, 7).unwrap();
        if chunk.is_empty() {
            return out;
        }
        out.extend_from_slice(&chunk);
    }
}

#[test]
fn archive_mounts_under_the_carrier_files_place() {
    let (mut store, _archives, zdir) = mount_archive();
    assert_eq!(store.get_full_path(zdir), "/tmp/root/data.zip");
}

#[test]
fn zip_scan_caches_file_entries_only() {
    let (mut store, mut archives, zdir) = mount_archive();
    store.zip_scan(&mut archives, zdir).unwrap();
    assert_eq!(store.needs_scan(zdir).unwrap(), false);
    let children = store.get_children(zdir).unwrap();
    assert_eq!(children.len(), 2);
    assert!(store.has_child(zdir, "a.txt").unwrap());
    assert!(store.has_child(zdir, "b.txt").unwrap());
    assert!(!store.has_child(zdir, "sub/").unwrap());
}

#[test]
fn zip_scan_twice_changes_nothing() {
    let (mut store, mut archives, zdir) = mount_archive();
    store.zip_scan(&mut archives, zdir).unwrap();
    let before = store.get_children(zdir).unwrap();
    store.zip_scan(&mut archives, zdir).unwrap();
    assert_eq!(store.get_children(zdir).unwrap(), before);
}

#[test]
fn unscanned_listing_rebuilds_fresh_nodes_per_call() {
    let (mut store, mut archives, zdir) = mount_archive();
    let first = store.get_children_zip(&mut archives, zdir).unwrap();
    // directory-like names are classified out; each file entry is a fresh node
    assert_eq!(first.len(), 2);
    for obj in &first {
        assert!(matches!(obj, FilesystemObject::File(_)));
        let name = store.node(obj.handle()).name_str();
        assert!(name == "a.txt" || name == "b.txt");
    }
    let second = store.get_children_zip(&mut archives, zdir).unwrap();
    assert_eq!(second.len(), 2);
    assert_ne!(first, second);
    // a scan makes the cache authoritative and stops the rebuilding
    store.zip_scan(&mut archives, zdir).unwrap();
    let third = store.get_children_zip(&mut archives, zdir).unwrap();
    let fourth = store.get_children_zip(&mut archives, zdir).unwrap();
    assert_eq!(third, fourth);
}

#[test]
fn entry_size_is_the_decompressed_length() {
    let (mut store, mut archives, zdir) = mount_archive();
    store.zip_scan(&mut archives, zdir).unwrap();
    let a = store.get_child(zdir, "a.txt").unwrap().handle();
    assert_eq!(store.size(a).unwrap(), ALPHA.len() as u64);
}

#[test]
fn reading_an_entry_yields_its_decompressed_content() {
    let (mut store, mut archives, zdir) = mount_archive();
    store.zip_scan(&mut archives, zdir).unwrap();
    let a = store.get_child(zdir, "a.txt").unwrap().handle();
    // a small buffer forces several refills, each re-skipping the stream
    store.set_buffer_size(a, 16).unwrap();
    assert_eq!(read_all(&mut store, &mut archives, a), ALPHA.to_vec());
}

#[test]
fn seek_end_yields_the_entry_size() {
    let (mut store, mut archives, zdir) = mount_archive();
    store.zip_scan(&mut archives, zdir).unwrap();
    let a = store.get_child(zdir, "a.txt").unwrap().handle();
    let l = ALPHA.len() as u64;
    assert_eq!(store.seek(a, SeekFrom::End(0)).unwrap(), l);
    // from offset L, stepping back L+1 bytes lands before the start
    match store.seek(a, SeekFrom::Current(-(l as i64) - 1)) {
        Err(FsError::Generic(m)) => assert_eq!(m, "Invalid seek offset"),
        _ => panic!("expected an invalid-seek error"),
    }
    // the failed seek left the offset where it was
    assert_eq!(store.seek(a, SeekFrom::Current(0)).unwrap(), l);
}

#[test]
fn read_after_seek_skips_exactly() {
    let (mut store, mut archives, zdir) = mount_archive();
    store.zip_scan(&mut archives, zdir).unwrap();
    let a = store.get_child(zdir, "a.txt").unwrap().handle();
    store.set_buffer_size(a, 8).unwrap();
    let k = 13usize;
    store.seek(a, SeekFrom::Start(k as u64)).unwrap();
    let rest = read_all(&mut store, &mut archives, a);
    assert_eq!(rest, ALPHA[k..].to_vec());
}

#[test]
fn seek_invalidates_the_window() {
    let (mut store, mut archives, zdir) = mount_archive();
    store.zip_scan(&mut archives, zdir).unwrap();
    let a = store.get_child(zdir, "a.txt").unwrap().handle();
    store.set_buffer_size(a, 32).unwrap();
    let head = store.read_zip(&mut archives, a, 5).unwrap();
    assert_eq!(head, ALPHA[..5].to_vec());
    store.seek(a, SeekFrom::Start(2)).unwrap();
    let again = store.read_zip(&mut archives, a, 5).unwrap();
    assert_eq!(again, ALPHA[2..7].to_vec());
}

#[test]
fn interleaved_reads_of_two_entries_do_not_mix() {
    let (mut store, mut archives, zdir) = mount_archive();
    store.zip_scan(&mut archives, zdir).unwrap();
    let a = store.get_child(zdir, "a.txt").unwrap().handle();
    let b = store.get_child(zdir, "b.txt").unwrap().handle();
    store.set_buffer_size(a, 8).unwrap();
    store.set_buffer_size(b, 8).unwrap();
    let mut got_a = Vec::new();
    let mut got_b = Vec::new();
    // both entries read through the one shared archive, strictly alternating
    loop {
        let ca = store.read_zip(&mut archives, a, 8).unwrap();
        let cb = store.read_zip(&mut archives, b, 8).unwrap();
        if ca.is_empty() && cb.is_empty() {
            break;
        }
        got_a.extend_from_slice(&ca);
        got_b.extend_from_slice(&cb);
    }
    assert_eq!(got_a, ALPHA.to_vec());
    assert_eq!(got_b, BETA.to_vec());
}

#[test]
fn archive_entries_are_read_only() {
    let (mut store, mut archives, zdir) = mount_archive();
    store.zip_scan(&mut archives, zdir).unwrap();
    let a = store.get_child(zdir, "a.txt").unwrap().handle();
    match store.write(a, b"x") {
        Err(FsError::Generic(m)) => assert_eq!(m, "unsupported operation"),
        _ => panic!("expected an unsupported-operation error"),
    }
    assert!(matches!(store.flush_data(a), Err(FsError::Generic(_))));
    assert!(matches!(store.rename_paths(a, "y"), Err(FsError::Generic(_))));
    assert!(matches!(
        store.new_file(zdir, "c.txt", 0),
        Err(FsError::Generic(_))
    ));
    assert!(matches!(store.new_dir(zdir, "d"), Err(FsError::Generic(_))));
}

#[test]
fn malformed_container_is_reported() {
    let mut store = NodeStore::new();
    let mut archives = ArchiveStore::new();
    let root = store.new_root("/tmp");
    let d = store.new_dir(root, "root").unwrap().handle();
    let carrier = store.new_file(d, "bad.zip", 0).unwrap().handle();
    match store.new_zip_directory(&mut archives, carrier, b"not an archive".to_vec()) {
        Err(FsError::ZipError(e)) => {
            assert!(!FsError::ZipError(e).message().is_empty());
        },
        _ => panic!("expected a ZipError"),
    }
}

#[test]
fn mounting_on_a_directory_is_reported() {
    let mut store = NodeStore::new();
    let mut archives = ArchiveStore::new();
    let root = store.new_root("/tmp");
    match store.new_zip_directory(&mut archives, root, build_archive()) {
        Err(FsError::NotAFile(p)) => assert_eq!(p, "/tmp"),
        _ => panic!("expected NotAFile"),
    }
}

#[test]
fn zip_file_node_interface_is_read_only() {
    let mut f = ZipFile::new("notes.txt", 3, 0, 8, 0, 21, 9);
    assert_eq!(f.name(), "notes.txt");
    assert_eq!(f.stem(), "notes");
    assert_eq!(f.ext(), Some("txt".to_string()));
    assert_eq!(f.get(), 9);
    assert_eq!(f.get_parent(), Some(3));
    assert_eq!(f.get_archive(), 0);
    assert_eq!(f.size(), 21);
    assert!(f.is_open());
    f.open().unwrap();
    f.close();
    assert_eq!(f.seek(SeekFrom::End(0)).unwrap(), 21);
    assert!(matches!(f.write(b"x"), Err(FsError::Generic(_))));
    assert!(matches!(f.flush(), Err(FsError::Generic(_))));
    assert!(matches!(f.rename("other"), Err(FsError::Generic(_))));
}

#[test]
fn seek_past_the_end_reads_nothing() {
    let (mut store, mut archives, zdir) = mount_archive();
    store.zip_scan(&mut archives, zdir).unwrap();
    let a = store.get_child(zdir, "a.txt").unwrap().handle();
    let l = ALPHA.len() as u64;
    assert_eq!(store.seek(a, SeekFrom::Start(l + 100)).unwrap(), l + 100);
    assert_eq!(store.read_zip(&mut archives, a, 8).unwrap(), Vec::<u8>::new());
}

#[test]
fn empty_archive_scans_to_no_children() {
    let w = ZipWriter::new(Cursor::new(Vec::new()));
    let bytes = w.finish().unwrap().into_inner();
    let mut store = NodeStore::new();
    let mut archives = ArchiveStore::new();
    let root = store.new_root("/tmp");
    let d = store.new_dir(root, "root").unwrap().handle();
    let carrier = store.new_file(d, "empty.zip", 0).unwrap().handle();
    let zdir = store.new_zip_directory(&mut archives, carrier, bytes).unwrap();
    store.zip_scan(&mut archives, zdir).unwrap();
    assert_eq!(store.get_children(zdir).unwrap(), Vec::new());
}

#[test]
fn entry_paths_join_under_the_archive() {
    let (mut store, mut archives, zdir) = mount_archive();
    store.zip_scan(&mut archives, zdir).unwrap();
    let a = store.get_child(zdir, "a.txt").unwrap().handle();
    assert_eq!(store.get_full_path(a), "/tmp/root/data.zip/a.txt");
}
