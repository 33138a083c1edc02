use workmux::git::lock::{lock_path, LockFailure, LockState, LOCK_FILE_NAME};

#[test]
fn lock_file_is_in_the_common_directory() {
    for dir in ["/repo/.git", "/repo/.git/", "", ".", "/", "répo//"] {
        let expected = std::path::Path::new(dir).join(LOCK_FILE_NAME);
        let path = String::from_utf8(lock_path(dir.as_bytes())).unwrap();
        assert_eq!(path, expected.to_str().unwrap());
    }
    assert_eq!(lock_path(b"/repo/.git"), b"/repo/.git/workmux.lock".to_vec());
    assert_eq!(lock_path(&[0xff]), b"\xff/workmux.lock".to_vec());
}

#[test]
fn directories_have_their_own_lock_files() {
    assert_ne!(lock_path(b"/a/.git"), lock_path(b"/b/.git"));
    assert_eq!(lock_path(b"/a/.git"), lock_path(b"/a/.git/"));
}

#[test]
fn lock_is_held_after_both_steps() {
    let created = LockState::Create.next(true, true);
    assert_eq!(created, LockState::Lock);
    assert_eq!(created.next(true, true), LockState::Held);
    assert_eq!(created.next(false, true), LockState::Failed(LockFailure::Lock));
    assert_eq!(LockState::Create.next(false, true), LockState::Failed(LockFailure::Create));
    assert_eq!(LockState::Create.next(true, false), LockState::Held);
    assert_eq!(LockState::Held.next(false, true), LockState::Held);
    let failed = LockState::Failed(LockFailure::Create);
    assert_eq!(failed.next(true, true), failed);
}

#[test]
fn failures_name_the_file() {
    assert_eq!(LockFailure::Create.message("/r/workmux.lock"), "Failed to create lock file /r/workmux.lock");
    assert_eq!(LockFailure::Lock.message("/r/workmux.lock"), "flock(/r/workmux.lock) failed");
}
