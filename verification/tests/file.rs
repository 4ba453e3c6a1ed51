//! Whole files: length check, windows, version filter, errors, writing back.

use acct::{AcctFile, AcctV3, Error, UserTable};

/// 64 bytes of a record with the given version, user id and command name.
fn record(version: u8, uid: u32, comm: &[u8]) -> Vec<u8> {
    let mut b = vec![0u8; 64];
    b[0] = 0x02;
    b[1] = version;
    b[8..12].copy_from_slice(&uid.to_le_bytes());
    b[16..20].copy_from_slice(&77u32.to_le_bytes());
    b[24..28].copy_from_slice(&1_600_000_000u32.to_le_bytes());
    b[48..48 + comm.len()].copy_from_slice(comm);
    b
}

fn users() -> UserTable {
    let mut table = UserTable::new();
    table.insert(1000, String::from("alice"));
    table.insert(1001, String::from("bob"));
    table.insert(0, String::from("root"));
    table
}

#[test]
fn length_precondition() {
    let table = users();
    for len in [63usize, 65, 127, 129, 1, 32] {
        let buf = vec![0u8; len];
        assert_eq!(AcctFile::load(&buf, &table), Err(Error::InvalidLength));
        assert_eq!(AcctFile::new(&buf), Err(Error::InvalidLength));
    }
}

#[test]
fn length_is_checked_before_any_record() {
    let mut buf = record(3, 4242, &[0xff]);
    buf.push(0);
    assert_eq!(AcctFile::load(&buf, &users()), Err(Error::InvalidLength));
    let short = &record(3, 1000, b"ls")[..63];
    assert_eq!(AcctFile::load(short, &users()), Err(Error::InvalidLength));
}

#[test]
fn empty_buffer_is_an_empty_file() {
    let file = AcctFile::load(&[], &users()).unwrap();
    assert!(file.records.is_empty());
    let file = AcctFile::new(&[]).unwrap();
    assert!(file.records.is_empty());
    assert_eq!(file.into_bytes(), Vec::<u8>::new());
}

#[test]
fn one_record_is_read() {
    let buf = record(3, 1000, b"ls");
    let file = AcctFile::load(&buf, &users()).unwrap();
    assert_eq!(file.records.len(), 1);
    let acct = &file.records[0];
    assert_eq!(acct.username, "alice");
    assert_eq!(acct.command, "ls\0\0\0\0\0\0\0\0\0\0\0\0\0\0");
    assert_eq!(acct.creation_time, 1_600_000_000);
    assert_eq!(acct.inner.ac_uid, 1000);
    assert_eq!(acct.inner.ac_pid, 77);
    assert!(acct.was_super_user());
    assert!(!acct.was_forked());
}

#[test]
fn version_filter() {
    let mut buf = record(3, 1000, b"ls");
    buf.extend(record(2, 1001, b"cat"));
    let file = AcctFile::load(&buf, &users()).unwrap();
    assert_eq!(file.records.len(), 1);
    assert_eq!(file.records[0].inner.ac_version, 3);
    assert_eq!(file.records[0].username, "alice");
    assert_eq!(file.records[0].command, "ls\0\0\0\0\0\0\0\0\0\0\0\0\0\0");
}

#[test]
fn version_filter_keeps_file_order() {
    let mut buf = record(2, 1001, b"old");
    buf.extend(record(3, 1001, b"first"));
    buf.extend(record(4, 1000, b"new"));
    buf.extend(record(3, 1000, b"second"));
    buf.extend(record(0, 0, b"none"));
    buf.extend(record(3, 0, b"third"));
    let file = AcctFile::load(&buf, &users()).unwrap();
    let names: Vec<&str> = file.records.iter().map(|r| r.username.as_str()).collect();
    assert_eq!(names, vec!["bob", "alice", "root"]);
    let commands: Vec<&str> =
        file.records.iter().map(|r| r.command.trim_end_matches('\0')).collect();
    assert_eq!(commands, vec!["first", "second", "third"]);
}

#[test]
fn only_other_versions_gives_an_empty_file() {
    let mut buf = record(2, 1000, b"a");
    buf.extend(record(1, 1001, b"b"));
    let file = AcctFile::load(&buf, &users()).unwrap();
    assert!(file.records.is_empty());
}

#[test]
fn end_to_end_unknown_user_fails_the_whole_load() {
    let mut buf = record(3, 1000, b"ls");
    buf.extend(record(3, 4242, b"ls"));
    assert_eq!(AcctFile::load(&buf, &users()), Err(Error::UnknownUser));
}

#[test]
fn malformed_text_fails_the_whole_load() {
    let mut buf = record(3, 1000, b"ls");
    buf.extend(record(3, 1001, &[b'l', 0xfe]));
    buf.extend(record(3, 0, b"ok"));
    assert_eq!(AcctFile::load(&buf, &users()), Err(Error::MalformedText));
}

#[test]
fn failures_are_not_skipped_in_records_of_other_versions() {
    let mut buf = record(3, 1000, b"ls");
    buf.extend(record(2, 1001, &[0xc0]));
    assert_eq!(AcctFile::load(&buf, &users()), Err(Error::MalformedText));
    let mut buf = record(3, 1000, b"ls");
    buf.extend(record(2, 4242, b"cat"));
    assert_eq!(AcctFile::load(&buf, &users()), Err(Error::UnknownUser));
}

#[test]
fn the_first_failing_record_decides_the_error() {
    let mut buf = record(3, 4242, b"ls");
    buf.extend(record(3, 1000, &[0xff]));
    assert_eq!(AcctFile::load(&buf, &users()), Err(Error::UnknownUser));
    let mut buf = record(3, 1000, &[0xff]);
    buf.extend(record(3, 4242, b"ls"));
    assert_eq!(AcctFile::load(&buf, &users()), Err(Error::MalformedText));
    let buf = record(3, 4242, &[0xff]);
    assert_eq!(AcctFile::load(&buf, &users()), Err(Error::MalformedText));
}

#[test]
fn load_agrees_with_reading_each_window() {
    let table = users();
    let mut buf = record(3, 1000, b"one");
    buf.extend(record(3, 1001, b"two"));
    buf.extend(record(3, 0, b"three"));
    let file = AcctFile::load(&buf, &table).unwrap();
    assert_eq!(file.records.len(), 3);
    for (i, acct) in file.records.iter().enumerate() {
        let window = &buf[i * 64..i * 64 + 64];
        assert_eq!(acct, &AcctV3::from_slice_with(window, &table).unwrap());
        assert_eq!(acct, &AcctV3::from_parts(window, Some(acct.username.clone())).unwrap());
    }
}

#[test]
fn dump_is_the_records_one_after_the_other() {
    let mut buf = record(3, 1000, b"one");
    buf.extend(record(3, 1001, b"two"));
    let file = AcctFile::load(&buf, &users()).unwrap();
    let first = file.records[0].to_bytes();
    let second = file.records[1].to_bytes();
    let bytes = file.into_bytes();
    assert_eq!(bytes.len(), 128);
    assert_eq!(&bytes[..64], &first[..]);
    assert_eq!(&bytes[64..], &second[..]);
}

#[test]
fn dump_after_load_gives_the_buffer_back_when_all_are_version_3() {
    let mut buf: Vec<u8> = Vec::new();
    for i in 0..5u32 {
        let mut r = record(3, 1000 + (i % 2), b"cmd");
        r[2] = i as u8;
        r[28..32].copy_from_slice(&(i as f32 * 0.25).to_bits().to_le_bytes());
        r[32] = 0x01;
        r[33] = 0x20;
        buf.extend(r);
    }
    let file = AcctFile::load(&buf, &users()).unwrap();
    assert_eq!(file.records.len(), 5);
    assert_eq!(file.into_bytes(), buf);
}

#[test]
fn dump_after_load_leaves_out_dropped_records() {
    let mut buf = record(3, 1000, b"one");
    buf.extend(record(2, 1001, b"two"));
    buf.extend(record(3, 0, b"three"));
    let bytes = AcctFile::load(&buf, &users()).unwrap().into_bytes();
    assert_eq!(bytes.len(), 128);
    assert_eq!(&bytes[..64], &buf[..64]);
    assert_eq!(&bytes[64..], &buf[128..]);
}

#[test]
fn load_after_dump_gives_the_records_back() {
    let mut buf = record(3, 1000, b"one");
    buf.extend(record(3, 1001, b"two"));
    let table = users();
    let file = AcctFile::load(&buf, &table).unwrap();
    let again = AcctFile::load(&file.clone().into_bytes(), &table).unwrap();
    assert_eq!(again, file);
}

#[test]
fn user_table_lookup() {
    let mut table = UserTable::new();
    assert_eq!(table.lookup(1000), None);
    table.insert(1000, String::from("alice"));
    assert_eq!(table.lookup(1000), Some(String::from("alice")));
    assert_eq!(table.lookup(1001), None);
    table.insert(1000, String::from("alicia"));
    assert_eq!(table.lookup(1000), Some(String::from("alicia")));
    table.insert(u32::MAX, String::new());
    assert_eq!(table.lookup(u32::MAX), Some(String::new()));
}

#[test]
fn from_slice_with_takes_the_name_from_the_table() {
    let table = users();
    let acct = AcctV3::from_slice_with(&record(3, 1001, b"cat"), &table).unwrap();
    assert_eq!(acct.username, "bob");
    assert_eq!(acct.inner.ac_uid, 1001);
    assert_eq!(
        AcctV3::from_slice_with(&record(3, 5, b"cat"), &table),
        Err(Error::UnknownUser)
    );
    assert_eq!(
        AcctV3::from_slice_with(&record(3, 1001, &[0xff]), &table),
        Err(Error::MalformedText)
    );
}
