use fsa::names::{name_ext, name_stem};
use fsa::physical::PhysicalDirectory;
use fsa::FilesystemObjectRaw;
use fsa::store::NodeStore;
use fsa::{FilesystemObject, FsError};

fn setup_root_dir() -> (NodeStore, usize, usize) {
    let mut store = NodeStore::new();
    let root = store.new_root("/tmp");
    let d = match store.new_dir(root, "root").unwrap() {
        FilesystemObject::Directory(h) => h,
        FilesystemObject::File(_) => panic!("expected a directory"),
    };
    (store, root, d)
}

#[test]
fn full_path_joins_ancestor_names() {
    let (mut store, root, d) = setup_root_dir();
    assert_eq!(store.get_full_path(root), "/tmp");
    assert_eq!(store.get_full_path(d), "/tmp/root");
    let f = store.new_file(d, "a.txt", 8).unwrap();
    assert_eq!(store.get_full_path(f.handle()), "/tmp/root/a.txt");
}

#[test]
fn scan_is_idempotent_and_caches() {
    let (mut store, _root, d) = setup_root_dir();
    assert_eq!(store.needs_scan(d).unwrap(), true);
    let listing = vec![
        ("a.txt".to_string(), false),
        ("sub".to_string(), true),
    ];
    store.scan_apply(d, &listing).unwrap();
    assert_eq!(store.needs_scan(d).unwrap(), false);
    let children = store.get_children(d).unwrap();
    assert_eq!(children.len(), 2);
    assert_eq!(store.has_child(d, "a.txt").unwrap(), true);
    assert_eq!(store.has_child(d, "sub").unwrap(), true);

    // a second scan is a no-op: a different listing changes nothing
    let other = vec![("b.txt".to_string(), false)];
    store.scan_apply(d, &other).unwrap();
    let again = store.get_children(d).unwrap();
    assert_eq!(again.len(), 2);
    assert_eq!(store.has_child(d, "b.txt").unwrap(), false);
    assert_eq!(again, children);
}

#[test]
fn scan_classifies_files_and_directories() {
    let (mut store, _root, d) = setup_root_dir();
    let listing = vec![
        ("a.txt".to_string(), false),
        ("sub".to_string(), true),
    ];
    store.scan_apply(d, &listing).unwrap();
    assert!(matches!(store.get_child(d, "a.txt").unwrap(), FilesystemObject::File(_)));
    let sub = match store.get_child(d, "sub").unwrap() {
        FilesystemObject::Directory(h) => h,
        FilesystemObject::File(_) => panic!("expected a directory"),
    };
    assert_eq!(store.get_full_path(sub), "/tmp/root/sub");
}

#[test]
fn scan_keeps_children_created_by_hand() {
    let (mut store, _root, d) = setup_root_dir();
    let f = store.new_file(d, "a.txt", 4).unwrap();
    let listing = vec![("a.txt".to_string(), false)];
    store.scan_apply(d, &listing).unwrap();
    assert_eq!(store.get_child(d, "a.txt").unwrap(), f);
    assert_eq!(store.get_children(d).unwrap().len(), 1);
}

#[test]
fn missing_child_is_reported_with_path_and_name() {
    let (mut store, _root, d) = setup_root_dir();
    store.scan_apply(d, &Vec::new()).unwrap();
    match store.get_child(d, "missing.txt") {
        Err(FsError::FileNotPresent(dir, name)) => {
            assert_eq!(dir, "/tmp/root");
            assert_eq!(name, "missing.txt");
            assert_eq!(
                FsError::FileNotPresent(dir, name).message(),
                "[/tmp/root] no file named 'missing.txt'"
            );
        },
        other => panic!("expected FileNotPresent, got {:?}", other.is_ok()),
    }
}

#[test]
fn write_flush_reopen_read_round_trip() {
    let (mut store, _root, d) = setup_root_dir();
    let f = store.new_file(d, "f.bin", 16).unwrap().handle();
    let written = store.write(f, b"hello").unwrap();
    assert_eq!(written, 5);
    let persisted = store.flush_data(f).unwrap();
    assert_eq!(persisted.len(), 16);
    store.close_file(f).unwrap();
    // reopen and let the backend hand the persisted content back
    store.open_file(f).unwrap();
    store.apply_fill(f, &persisted).unwrap();
    let back = store.read(f, 5).unwrap();
    assert_eq!(back, b"hello".to_vec());
}

#[test]
fn zero_buffer_write_accepts_nothing() {
    let (mut store, _root, d) = setup_root_dir();
    let f = store.new_file(d, "z.bin", 0).unwrap().handle();
    let written = store.write(f, b"payload").unwrap();
    assert_eq!(written, 0);
    assert_eq!(store.flush_data(f).unwrap(), Vec::<u8>::new());
}

#[test]
fn write_truncates_to_buffer_length() {
    let (mut store, _root, d) = setup_root_dir();
    let f = store.new_file(d, "t.bin", 3).unwrap().handle();
    assert_eq!(store.write(f, b"hello").unwrap(), 3);
    assert_eq!(store.flush_data(f).unwrap(), b"hel".to_vec());
}

#[test]
fn read_serves_from_window_and_consume_saturates() {
    let (mut store, _root, d) = setup_root_dir();
    let f = store.new_file(d, "w.bin", 8).unwrap().handle();
    store.open_file(f).unwrap();
    store.apply_fill(f, b"abcdef").unwrap();
    assert_eq!(store.fill_buf(f).unwrap(), b"abcdef".to_vec());
    assert_eq!(store.read(f, 2).unwrap(), b"ab".to_vec());
    store.consume(f, 1).unwrap();
    assert_eq!(store.read(f, 10).unwrap(), b"def".to_vec());
    // the window is exhausted: a read serves nothing until the next fill
    assert_eq!(store.read(f, 10).unwrap(), Vec::<u8>::new());
}

#[test]
fn close_empties_window_but_keeps_buffer() {
    let (mut store, _root, d) = setup_root_dir();
    let f = store.new_file(d, "c.bin", 4).unwrap().handle();
    assert_eq!(store.write(f, b"abcd").unwrap(), 4);
    store.open_file(f).unwrap();
    assert_eq!(store.is_open(f).unwrap(), true);
    store.close_file(f).unwrap();
    assert_eq!(store.is_open(f).unwrap(), false);
    assert_eq!(store.flush_data(f).unwrap(), b"abcd".to_vec());
}

#[test]
fn fill_requires_open_file() {
    let (mut store, _root, d) = setup_root_dir();
    let f = store.new_file(d, "n.bin", 4).unwrap().handle();
    match store.apply_fill(f, b"ab") {
        Err(FsError::FileNotOpen(name)) => {
            assert_eq!(name, "n.bin");
            assert_eq!(FsError::FileNotOpen(name).message(), "file 'n.bin' is not open");
        },
        _ => panic!("expected FileNotOpen"),
    }
}

#[test]
fn set_buffer_size_resizes() {
    let (mut store, _root, d) = setup_root_dir();
    let f = store.new_file(d, "r.bin", 0).unwrap().handle();
    assert_eq!(store.write(f, b"hello").unwrap(), 0);
    store.set_buffer_size(f, 5).unwrap();
    assert_eq!(store.write(f, b"hello").unwrap(), 5);
}

#[test]
fn file_operations_on_directories_are_reported() {
    let (mut store, _root, d) = setup_root_dir();
    match store.write(d, b"x") {
        Err(FsError::NotAFile(p)) => {
            assert_eq!(p, "/tmp/root");
            assert_eq!(FsError::NotAFile(p).message(), "Not a file: /tmp/root");
        },
        _ => panic!("expected NotAFile"),
    }
    assert!(matches!(store.read(d, 1), Err(FsError::NotAFile(_))));
    assert!(matches!(store.open_file(d), Err(FsError::NotAFile(_))));
}

#[test]
fn directory_operations_on_files_are_reported() {
    let (mut store, _root, d) = setup_root_dir();
    let f = store.new_file(d, "a.txt", 0).unwrap().handle();
    match store.get_child(f, "x") {
        Err(FsError::NotADirectory(p)) => {
            assert_eq!(p, "/tmp/root/a.txt");
            assert_eq!(
                FsError::NotADirectory(p).message(),
                "Not a directory: /tmp/root/a.txt"
            );
        },
        _ => panic!("expected NotADirectory"),
    }
    assert!(matches!(store.get_children(f), Err(FsError::NotADirectory(_))));
    assert!(matches!(store.new_dir(f, "x"), Err(FsError::NotADirectory(_))));
}

#[test]
fn new_file_replaces_a_child_of_the_same_name() {
    let (mut store, _root, d) = setup_root_dir();
    let first = store.new_file(d, "a.txt", 0).unwrap();
    let second = store.new_file(d, "a.txt", 0).unwrap();
    assert_ne!(first, second);
    assert_eq!(store.get_child(d, "a.txt").unwrap(), second);
    assert_eq!(store.get_children(d).unwrap().len(), 1);
}

#[test]
fn rename_reports_both_paths_and_leaves_cache() {
    let (mut store, _root, d) = setup_root_dir();
    let f = store.new_file(d, "a.txt", 0).unwrap().handle();
    let (from, to) = store.rename_paths(f, "b.txt").unwrap();
    assert_eq!(from, "/tmp/root/a.txt");
    assert_eq!(to, "/tmp/root/b.txt");
    // the cache key is not updated: a documented gap the caller carries
    assert_eq!(store.has_child(d, "a.txt").unwrap(), true);
    assert_eq!(store.has_child(d, "b.txt").unwrap(), false);
}

#[test]
fn stem_and_ext_split_on_the_last_dot() {
    assert_eq!(name_stem("archive.tar.gz"), "archive.tar");
    assert_eq!(name_ext("archive.tar.gz"), Some("gz".to_string()));
    assert_eq!(name_stem("README"), "README");
    assert_eq!(name_ext("README"), None);
    // a leading dot marks a hidden name, not an extension
    assert_eq!(name_stem(".hidden"), ".hidden");
    assert_eq!(name_ext(".hidden"), None);
    assert_eq!(name_stem(".config.yml"), ".config");
    assert_eq!(name_ext(".config.yml"), Some("yml".to_string()));
}

#[test]
fn error_messages_render_each_variant() {
    assert_eq!(FsError::Generic("boom".to_string()).message(), "boom");
    let io = std::io::Error::from(std::io::ErrorKind::NotFound);
    let wrapped = FsError::from(io);
    assert!(matches!(wrapped, FsError::IoError(_)));
    assert!(!wrapped.message().is_empty());
    let generic = FsError::from("odd".to_string());
    assert!(matches!(generic, FsError::Generic(_)));
}

#[test]
fn trait_defaults_split_names_and_report_unsupported() {
    let mut d = PhysicalDirectory::new("photos.old", None, 0);
    assert_eq!(d.name(), "photos.old");
    assert_eq!(d.stem(), "photos");
    assert_eq!(d.ext(), Some("old".to_string()));
    assert_eq!(d.get(), 0);
    assert_eq!(d.get_parent(), None);
    match d.scan() {
        Err(FsError::Generic(m)) => assert_eq!(m, "unsupported operation"),
        _ => panic!("expected an unsupported-operation error"),
    }
    match d.delete() {
        Err(FsError::Generic(m)) => assert_eq!(m, "unsupported operation"),
        _ => panic!("expected an unsupported-operation error"),
    }
}
