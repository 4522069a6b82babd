use std::collections::BTreeMap;

use pass_mng::crypto::{decode_plaintext, tool_result, ToolRun};
use pass_mng::store::{delete_failure, prepare_insert, read_failure};
use pass_mng::{list_keys, AtomicWrite, StoreError, WriteAction, WritePhase};

/// Runs the write protocol against an in-memory file map; `fail_at` makes the
/// action of that index fail, leaving garbage in the temporary file.
fn write_in_memory(
    disk: &mut BTreeMap<String, Vec<u8>>,
    temp: &str,
    file: &str,
    bytes: &[u8],
    fail_at: Option<usize>,
) -> Result<(), StoreError> {
    let mut w = AtomicWrite::new();
    let mut step = 0usize;
    loop {
        if let Some(r) = w.outcome() {
            return r;
        }
        let ok = fail_at != Some(step);
        let action = w.action();
        if ok {
            match action {
                WriteAction::CreateTemp => {
                    disk.insert(temp.to_string(), Vec::new());
                }
                WriteAction::WriteTemp => {
                    disk.insert(temp.to_string(), bytes.to_vec());
                }
                WriteAction::SyncTemp => {}
                WriteAction::RenameOver => {
                    let content = disk.remove(temp).unwrap();
                    disk.insert(file.to_string(), content);
                }
                WriteAction::Stop => {}
            }
        } else if action != WriteAction::RenameOver {
            disk.insert(temp.to_string(), vec![0xff]);
        }
        // the final path is never partial at any point of the run
        if let Some(c) = disk.get(file) {
            assert!(!c.is_empty());
        }
        w.report(ok);
        step += 1;
    }
}

fn relative_files(disk: &BTreeMap<String, Vec<u8>>, root: &str) -> Vec<String> {
    let prefix = format!("{}/", root);
    disk.keys().filter_map(|k| k.strip_prefix(&prefix).map(|s| s.to_string())).collect()
}

#[test]
fn write_phases_in_order() {
    let mut w = AtomicWrite::new();
    assert_eq!(w.phase, WritePhase::Start);
    let mut seen = Vec::new();
    while w.outcome().is_none() {
        seen.push(w.action());
        w.report(true);
    }
    assert_eq!(
        seen,
        vec![
            WriteAction::CreateTemp,
            WriteAction::WriteTemp,
            WriteAction::SyncTemp,
            WriteAction::RenameOver
        ]
    );
    assert_eq!(w.outcome(), Some(Ok(())));
    assert_eq!(w.action(), WriteAction::Stop);
}

#[test]
fn write_failure_never_renames() {
    for fail in 0..4 {
        let mut w = AtomicWrite::new();
        let mut step = 0;
        while w.outcome().is_none() {
            if step == fail {
                w.report(false);
            } else {
                assert_ne!(w.action(), WriteAction::RenameOver);
                w.report(true);
            }
            step += 1;
        }
        assert_eq!(w.phase, WritePhase::Failed);
        assert_eq!(w.outcome(), Some(Err(StoreError::IoError)));
    }
}

#[test]
fn write_twice_same_bytes_is_idempotent() {
    let mut disk = BTreeMap::new();
    write_in_memory(&mut disk, "/s/k.gpg.tmp", "/s/k.gpg", b"secret", None).unwrap();
    assert_eq!(disk.get("/s/k.gpg"), Some(&b"secret".to_vec()));
    write_in_memory(&mut disk, "/s/k.gpg.tmp", "/s/k.gpg", b"secret", None).unwrap();
    assert_eq!(disk.get("/s/k.gpg"), Some(&b"secret".to_vec()));
    for fail in 0..4 {
        let r = write_in_memory(&mut disk, "/s/k.gpg.tmp", "/s/k.gpg", b"secret", Some(fail));
        assert_eq!(r, Err(StoreError::IoError));
        assert_eq!(disk.get("/s/k.gpg"), Some(&b"secret".to_vec()));
    }
}

#[test]
fn interrupted_write_keeps_old_content() {
    let mut disk = BTreeMap::new();
    disk.insert("/s/k.gpg".to_string(), b"old".to_vec());
    let r = write_in_memory(&mut disk, "/s/k.gpg.tmp", "/s/k.gpg", b"new", Some(2));
    assert_eq!(r, Err(StoreError::IoError));
    assert_eq!(disk.get("/s/k.gpg"), Some(&b"old".to_vec()));
}

#[test]
fn read_and_delete_failures() {
    assert_eq!(read_failure(true), StoreError::NotFound);
    assert_eq!(read_failure(false), StoreError::ReadFailed);
    assert_eq!(delete_failure(true), StoreError::NotFound);
    assert_eq!(delete_failure(false), StoreError::IoError);
}

#[test]
fn insert_needs_recipient_first() {
    assert!(matches!(prepare_insert("/s", "a/b", None), Err(StoreError::MissingEnvironment)));
    assert!(matches!(prepare_insert("/s", "../x", None), Err(StoreError::MissingEnvironment)));
    assert!(matches!(prepare_insert("/s", "../x", Some("me")), Err(StoreError::InvalidKey)));
    let p = prepare_insert("/s", "a/b", Some("me")).ok().unwrap();
    assert_eq!(p.file, "/s/a/b.gpg");
}

#[test]
fn tool_outcomes() {
    let run = |spawned, piped, success, code| ToolRun {
        spawned,
        piped,
        success,
        code,
        output: b"out".to_vec(),
    };
    assert_eq!(tool_result(run(false, false, false, None)), Err(StoreError::ToolNotFound));
    assert_eq!(tool_result(run(true, false, false, None)), Err(StoreError::IoError));
    assert_eq!(
        tool_result(run(true, true, false, Some(2))),
        Err(StoreError::ToolFailed { code: Some(2) })
    );
    assert_eq!(tool_result(run(true, true, true, Some(0))), Ok(b"out".to_vec()));
}

#[test]
fn decode_valid_and_invalid_text() {
    assert_eq!(decode_plaintext(b"hunter2".to_vec()), Ok("hunter2".to_string()));
    assert_eq!(decode_plaintext("zażółć".as_bytes().to_vec()), Ok("zażółć".to_string()));
    assert_eq!(decode_plaintext(vec![0xff, 0xfe]), Err(StoreError::DecodedContentInvalid));
}

#[test]
fn delete_then_read_is_not_found() {
    let mut disk = BTreeMap::new();
    let p = prepare_insert("/s", "k", Some("me")).ok().unwrap();
    write_in_memory(&mut disk, &p.temp, &p.file, b"x", None).unwrap();
    assert!(disk.remove(&p.file).is_some());
    let read = match disk.get(&p.file) {
        Some(b) => Ok(b.clone()),
        None => Err(read_failure(true)),
    };
    assert_eq!(read, Err(StoreError::NotFound));
}

#[test]
fn insert_show_list_remove_scenario() {
    // the cryptographic tool is stood in for by the identity transform
    let root = "/store";
    let mut disk = BTreeMap::new();
    let p = prepare_insert(root, "email/work", Some("test@example.com")).ok().unwrap();
    assert_eq!(p.parent, "/store/email");
    let ciphertext = tool_result(ToolRun {
        spawned: true,
        piped: true,
        success: true,
        code: Some(0),
        output: b"hunter2".to_vec(),
    })
    .unwrap();
    write_in_memory(&mut disk, &p.temp, &p.file, &ciphertext, None).unwrap();

    let shown = decode_plaintext(disk.get(&p.file).unwrap().clone()).unwrap();
    assert_eq!(shown, "hunter2");
    assert_eq!(list_keys(&relative_files(&disk, root)), vec!["email/work".to_string()]);

    assert!(disk.remove(&p.file).is_some());
    assert!(list_keys(&relative_files(&disk, root)).is_empty());
    let show = match disk.get(&p.file) {
        Some(b) => Ok(b.clone()),
        None => Err(read_failure(true)),
    };
    assert_eq!(show, Err(StoreError::NotFound));
}
