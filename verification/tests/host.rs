//! Reading with the host's user database. What the database holds is not
//! known to a test, so each test states what holds whatever it answers.

use acct::{AcctFile, AcctV3, Error};

fn record(version: u8, uid: u32, comm: &[u8]) -> Vec<u8> {
    let mut b = vec![0u8; 64];
    b[1] = version;
    b[8..12].copy_from_slice(&uid.to_le_bytes());
    b[24..28].copy_from_slice(&86_400u32.to_le_bytes());
    b[48..48 + comm.len()].copy_from_slice(comm);
    b
}

#[test]
fn from_slice_gives_the_record_or_unknown_user() {
    for uid in [0u32, 1, 1000, 65_534, 4_000_000_000] {
        let buf = record(3, uid, b"sh");
        match AcctV3::from_slice(&buf) {
            Ok(acct) => {
                let expected = AcctV3::from_parts(&buf, Some(acct.username.clone())).unwrap();
                assert_eq!(acct, expected);
                assert_eq!(acct.inner.ac_uid, uid);
                assert_eq!(acct.command, "sh\0\0\0\0\0\0\0\0\0\0\0\0\0\0");
                assert_eq!(acct.creation_time, 86_400);
            }
            Err(e) => assert_eq!(e, Error::UnknownUser),
        }
    }
}

#[test]
fn from_slice_rejects_malformed_text_whoever_the_user_is() {
    for uid in [0u32, 4_000_000_000] {
        assert_eq!(AcctV3::from_slice(&record(3, uid, &[0xff])), Err(Error::MalformedText));
    }
}

#[test]
fn from_slice_agrees_with_the_users_crate() {
    for uid in [0u32, 1, 4_000_000_000] {
        let found = users::get_user_by_uid(uid)
            .and_then(|user| user.name().to_str().map(|name| name.to_string()));
        let buf = record(3, uid, b"sh");
        assert_eq!(AcctV3::from_slice(&buf), AcctV3::from_parts(&buf, found));
    }
}

#[test]
fn new_gives_the_records_or_unknown_user() {
    let mut buf = record(3, 0, b"init");
    buf.extend(record(2, 0, b"old"));
    buf.extend(record(3, 0, b"sh"));
    match AcctFile::new(&buf) {
        Ok(file) => {
            assert_eq!(file.records.len(), 2);
            assert_eq!(file.records[0].command, "init\0\0\0\0\0\0\0\0\0\0\0\0");
            assert_eq!(file.records[1].command, "sh\0\0\0\0\0\0\0\0\0\0\0\0\0\0");
            assert_eq!(file.records[0].username, file.records[1].username);
            let mut kept = buf[..64].to_vec();
            kept.extend_from_slice(&buf[128..]);
            assert_eq!(file.into_bytes(), kept);
        }
        Err(e) => assert_eq!(e, Error::UnknownUser),
    }
}

#[test]
fn new_rejects_malformed_text_in_the_first_record() {
    let mut buf = record(3, 0, &[0x80]);
    buf.extend(record(3, 0, b"sh"));
    assert_eq!(AcctFile::new(&buf), Err(Error::MalformedText));
}

#[test]
fn new_only_fails_with_errors_of_its_records() {
    let mut buf = record(3, 4_000_000_000, b"a");
    buf.extend(record(3, 0, &[0xff]));
    let e = AcctFile::new(&buf).unwrap_err();
    assert!(e == Error::UnknownUser || e == Error::MalformedText);
    assert_ne!(e, Error::InvalidLength);
}
