use pass_mng::listing::file_key;
use pass_mng::{key_to_path, list_keys, sanitize_key_part, DirEntryInfo, StoreError, Walker};

#[test]
fn sanitize_accepts_plain_segment() {
    assert_eq!(sanitize_key_part("email"), Ok(()));
    assert_eq!(sanitize_key_part("a.b"), Ok(()));
    assert_eq!(sanitize_key_part("..."), Ok(()));
}

#[test]
fn sanitize_rejects_dots_and_empty() {
    assert_eq!(sanitize_key_part(""), Err(StoreError::InvalidKey));
    assert_eq!(sanitize_key_part("."), Err(StoreError::InvalidKey));
    assert_eq!(sanitize_key_part(".."), Err(StoreError::InvalidKey));
    assert_eq!(sanitize_key_part("a/b"), Err(StoreError::InvalidKey));
    assert_eq!(sanitize_key_part("a\0b"), Err(StoreError::InvalidKey));
}

#[test]
fn resolve_nested_key() {
    let p = key_to_path("/root/store", "email/work").ok().unwrap();
    assert_eq!(p.file, "/root/store/email/work.gpg");
    assert_eq!(p.temp, "/root/store/email/work.gpg.tmp");
    assert_eq!(p.parent, "/root/store/email");
}

#[test]
fn resolve_single_segment_key() {
    let p = key_to_path("/s", "bank").ok().unwrap();
    assert_eq!(p.file, "/s/bank.gpg");
    assert_eq!(p.temp, "/s/bank.gpg.tmp");
    assert_eq!(p.parent, "/s");
}

#[test]
fn resolve_keeps_dots_inside_names() {
    let p = key_to_path("/s", "a/b.c/d.e").ok().unwrap();
    assert_eq!(p.file, "/s/a/b.c/d.e.gpg");
    assert_eq!(p.parent, "/s/a/b.c");
}

#[test]
fn resolve_rejects_traversal_and_empty_segments() {
    for k in ["../../etc/passwd", "a/../b", "./a", "a/.", "", "/a", "a/", "a//b", "..", "a/b/.."] {
        assert!(
            matches!(key_to_path("/s", k), Err(StoreError::InvalidKey)),
            "key {:?} was accepted",
            k
        );
    }
}

#[test]
fn resolve_is_deterministic() {
    let a = key_to_path("/r", "x/y/z").ok().unwrap();
    let b = key_to_path("/r", "x/y/z").ok().unwrap();
    assert_eq!(a.file, b.file);
    assert_eq!(a.temp, b.temp);
    assert_eq!(a.parent, b.parent);
}

#[test]
fn file_key_strips_extension() {
    assert_eq!(file_key("a/b.gpg"), Some("a/b".to_string()));
    assert_eq!(file_key("d.gpg"), Some("d".to_string()));
    assert_eq!(file_key("a/.gpg"), None);
    assert_eq!(file_key(".gpg"), None);
    assert_eq!(file_key("a/b.gpg.tmp"), None);
    assert_eq!(file_key("notes.txt"), None);
}

#[test]
fn list_keys_of_three_secrets() {
    let files = vec![
        "a/b.gpg".to_string(),
        "a/c.gpg".to_string(),
        "a/c.gpg.tmp".to_string(),
        "d.gpg".to_string(),
    ];
    let mut keys = list_keys(&files);
    keys.sort();
    assert_eq!(keys, vec!["a/b".to_string(), "a/c".to_string(), "d".to_string()]);
}

#[test]
fn list_keys_of_empty_store() {
    assert!(list_keys(&Vec::new()).is_empty());
}

#[test]
fn walker_collects_nested_keys() {
    let mut w = Walker::new();
    let root = w.next_dir().unwrap();
    assert_eq!(root, "");
    w.visit(
        &root,
        &vec![
            DirEntryInfo { name: "a".to_string(), is_dir: true },
            DirEntryInfo { name: "d.gpg".to_string(), is_dir: false },
        ],
    );
    let a = w.next_dir().unwrap();
    assert_eq!(a, "a");
    w.visit(
        &a,
        &vec![
            DirEntryInfo { name: "b.gpg".to_string(), is_dir: false },
            DirEntryInfo { name: "c.gpg".to_string(), is_dir: false },
        ],
    );
    assert!(w.next_dir().is_none());
    let mut keys = w.keys();
    keys.sort();
    assert_eq!(keys, vec!["a/b".to_string(), "a/c".to_string(), "d".to_string()]);
}
