//! Tests for the endpoint directory: path resolution, the decimal pid text,
//! and the lock, close and client-bootstrap rules.

use converse::error::Error;
use converse::procdir::format_pid;
use converse::procdir::parse_pid;
use converse::procdir::EndpointState;
use converse::procdir::LockContent;
use converse::procdir::ProcessDirectory;

fn running_endpoint(owner: u32) -> EndpointState {
    EndpointState { dir_present: true, lock: LockContent::Pid(owner), socket_present: true }
}

fn fresh_endpoint() -> EndpointState {
    EndpointState { dir_present: true, lock: LockContent::Missing, socket_present: false }
}

fn directory() -> ProcessDirectory {
    ProcessDirectory::new("playlist", "/tmp", true, true).unwrap()
}

#[test]
fn new_builds_the_three_paths() {
    let d = directory();
    assert_eq!(d.path().as_str(), "/tmp/playlist");
    assert_eq!(d.lockfile().as_str(), "/tmp/playlist/lock");
    assert_eq!(d.socket().as_str(), "/tmp/playlist/socket");
}

#[test]
fn new_rejects_missing_tmp() {
    let e = ProcessDirectory::new("playlist", "/tmp", false, true).unwrap_err();
    assert!(matches!(e, Error::ProcessDirectory(_)));
}

#[test]
fn new_rejects_non_directory_tmp() {
    let e = ProcessDirectory::new("playlist", "/tmp/file", true, false).unwrap_err();
    assert!(matches!(e, Error::ProcessDirectory(_)));
}

#[test]
fn new_rejects_relative_path() {
    let e = ProcessDirectory::new("playlist", "tmp", true, true).unwrap_err();
    assert!(matches!(e, Error::ProcessDirectory(_)));
}

#[test]
fn parse_pid_reads_decimal() {
    assert_eq!(parse_pid(b"123").unwrap(), 123);
    assert_eq!(parse_pid(b"0").unwrap(), 0);
    assert_eq!(parse_pid(b"007").unwrap(), 7);
    assert_eq!(parse_pid(b"4294967295").unwrap(), u32::MAX);
}

#[test]
fn parse_pid_rejects_bad_text() {
    assert!(matches!(parse_pid(b"").unwrap_err(), Error::ProcessDirectory(_)));
    assert!(matches!(parse_pid(b"12a").unwrap_err(), Error::ProcessDirectory(_)));
    assert!(matches!(parse_pid(b"-5").unwrap_err(), Error::ProcessDirectory(_)));
    assert!(matches!(parse_pid(b"4294967296").unwrap_err(), Error::ProcessDirectory(_)));
}

#[test]
fn format_pid_renders_decimal() {
    assert_eq!(format_pid(0), b"0".to_vec());
    assert_eq!(format_pid(42), b"42".to_vec());
    assert_eq!(format_pid(u32::MAX), b"4294967295".to_vec());
}

#[test]
fn format_then_parse_is_identity() {
    for pid in [0u32, 1, 9, 10, 99, 100, 65535, u32::MAX] {
        assert_eq!(parse_pid(&format_pid(pid)).unwrap(), pid);
    }
}

#[test]
fn lock_twice_by_same_pid_succeeds() {
    let d = directory();
    let mut fs = fresh_endpoint();
    assert!(d.lock(&mut fs, 100).is_ok());
    assert_eq!(fs.lock, LockContent::Pid(100));
    assert!(d.lock(&mut fs, 100).is_ok());
    assert_eq!(fs.lock, LockContent::Pid(100));
}

#[test]
fn lock_by_second_pid_fails_with_directory_error() {
    let d = directory();
    let mut fs = fresh_endpoint();
    assert!(d.lock(&mut fs, 100).is_ok());
    let e = d.lock(&mut fs, 200).unwrap_err();
    assert!(matches!(e, Error::ProcessDirectory(_)));
    assert_eq!(fs.lock, LockContent::Pid(100));
}

#[test]
fn lock_replaces_stale_garbled_lock() {
    let d = directory();
    let mut fs = EndpointState {
        dir_present: true,
        lock: LockContent::Garbled,
        socket_present: false,
    };
    assert!(d.lock(&mut fs, 100).is_ok());
    assert_eq!(fs.lock, LockContent::Pid(100));
}

#[test]
fn close_by_non_owner_is_no_op() {
    let d = directory();
    let mut fs = running_endpoint(100);
    d.close(&mut fs, 200);
    assert!(fs.dir_present);
    assert_eq!(fs.lock, LockContent::Pid(100));
    assert!(fs.socket_present);
}

#[test]
fn close_by_owner_removes_everything() {
    let d = directory();
    let mut fs = running_endpoint(100);
    d.close(&mut fs, 100);
    assert!(!fs.dir_present);
    assert_eq!(fs.lock, LockContent::Missing);
    assert!(!fs.socket_present);
}

#[test]
fn bootstrap_fails_without_socket() {
    let d = directory();
    let fs = fresh_endpoint();
    let e = d.client_bootstrap(&fs, 777).unwrap_err();
    assert!(matches!(e, Error::Client(_)));
    assert_eq!(e.message().as_str(), "socket file does not exist");
}

#[test]
fn bootstrap_fails_when_lock_is_acquirable() {
    let d = directory();
    let mut fs = fresh_endpoint();
    fs.socket_present = true;
    let e = d.client_bootstrap(&fs, 777).unwrap_err();
    assert!(matches!(e, Error::Client(_)));
    assert_eq!(e.message().as_str(), "endpoint directory is not locked by a server");
    // The probe only reads: the client never becomes the lock owner.
    assert_eq!(fs.lock, LockContent::Missing);
}

#[test]
fn bootstrap_errors_are_distinct() {
    let d = directory();
    let without_socket = fresh_endpoint();
    let e1 = d.client_bootstrap(&without_socket, 777).unwrap_err();
    let mut unlocked = fresh_endpoint();
    unlocked.socket_present = true;
    let e2 = d.client_bootstrap(&unlocked, 777).unwrap_err();
    assert_ne!(e1.message().as_str(), e2.message().as_str());
}

#[test]
fn bootstrap_succeeds_against_live_server() {
    let d = directory();
    let fs = running_endpoint(100);
    assert!(d.client_bootstrap(&fs, 777).is_ok());
    assert_eq!(fs.lock, LockContent::Pid(100));
    assert!(fs.socket_present);
}
