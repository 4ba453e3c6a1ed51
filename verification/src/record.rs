//! A record as it is handed out: the wire fields, with the command name as
//! text, the user's name, and the time the process began.

use vstd::prelude::*;
use crate::error::Error;
use crate::flags::{has_flag, test_flag, ACORE, AFORK, ASU, AXSIG};
use crate::raw::{
    decode_record, encode_record, lemma_decode_encode, lemma_encode_decode, lemma_encode_len,
    AcctV3Inner, RawRecord, RECORD_SIZE,
};
use crate::text::utf8_text;
use crate::userdb::{lookup_spec, name_view, system_username, UserTable};

verus! {

/// A record as a mathematical value.
pub struct AcctV3View {
    /// The fields as they lie on the wire.
    pub inner: RawRecord,
    /// The name of the user who ran the command.
    pub username: Seq<char>,
    /// The command name.
    pub command: Seq<char>,
    /// When the process began, in seconds since the epoch.
    pub creation_time: nat,
}

impl AcctV3View {
    /// The command and the time are those of the wire fields.
    pub open spec fn wf(self) -> bool {
        &&& self.inner.wf()
        &&& utf8_text(self.inner.comm) == Some(self.command)
        &&& self.creation_time == self.inner.btime
    }
}

/// What 64 bytes are read as, given what the search for the user's name gave:
/// a record, or the reason why there is none. The command name is looked at
/// first.
pub open spec fn record_spec(bytes: Seq<u8>, username: Option<Seq<char>>) -> Result<
    AcctV3View,
    Error,
>
    recommends
        bytes.len() == RECORD_SIZE,
{
    let inner = decode_record(bytes);
    match (utf8_text(inner.comm), username) {
        (None, _) => Err(Error::MalformedText),
        (Some(_), None) => Err(Error::UnknownUser),
        (Some(command), Some(username)) => Ok(
            AcctV3View { inner, username, command, creation_time: inner.btime as nat },
        ),
    }
}

/// Whether `name` is what a search for user `uid` may give: with a table, what
/// the table holds; without one, anything, as nothing is known of the host's
/// user database.
pub open spec fn answered_by(users: Option<&UserTable>, uid: u32, name: Option<Seq<char>>) -> bool {
    match users {
        Some(table) => name == lookup_spec(table@, uid),
        None => true,
    }
}

/// An answer that a search for user `uid` may give.
pub open spec fn answer_of(users: Option<&UserTable>, uid: u32) -> Option<Seq<char>> {
    match users {
        Some(table) => lookup_spec(table@, uid),
        None => None,
    }
}

/// One record of an accounting file.
#[derive(Debug, Clone, PartialEq, Eq)]
pub struct AcctV3 {
    /// The fields as they lie on the wire.
    pub inner: AcctV3Inner,
    /// The name of the user who ran the command.
    pub username: String,
    /// The command name, NUL padding and all.
    pub command: String,
    /// When the process began, in seconds since the epoch.
    pub creation_time: u64,
}

impl View for AcctV3 {
    type V = AcctV3View;

    open spec fn view(&self) -> AcctV3View {
        AcctV3View {
            inner: self.inner@,
            username: self.username@,
            command: self.command@,
            creation_time: self.creation_time as nat,
        }
    }
}

/// The outcome of reading one record, as a mathematical value.
pub open spec fn record_result_view(r: Result<AcctV3, Error>) -> Result<AcctV3View, Error> {
    match r {
        Ok(acct) => Ok(acct@),
        Err(e) => Err(e),
    }
}

impl AcctV3 {
    /// Puts a record together from its wire fields, its command name, and what
    /// the search for the user's name gave.
    fn assemble(inner: AcctV3Inner, command: String, username: Option<String>) -> (acct: Result<
        AcctV3,
        Error,
    >)
        requires
            utf8_text(inner@.comm) == Some(command@),
        ensures
            record_result_view(acct) == record_spec(encode_record(inner@), name_view(username)),
            acct matches Ok(a) ==> a@.wf(),
    {
        proof {
            lemma_decode_encode(inner@);
        }
        match username {
            Some(username) => {
                let creation_time: u64 = inner.ac_btime as u64;
                Ok(AcctV3 { inner, username, command, creation_time })
            },
            None => Err(Error::UnknownUser),
        }
    }

    /// Reads one record from exactly 64 bytes. The user's name is searched for
    /// in `users`, or in the host's user database where there is no table.
    /// Beside the record comes the answer that it was made with. Where the
    /// command name is not text there is no search, and the answer is one
    /// that a search may have given.
    pub(crate) fn read(buf: &[u8], users: Option<&UserTable>) -> (out: (
        Result<AcctV3, Error>,
        Ghost<Option<Seq<char>>>,
    ))
        requires
            buf@.len() == RECORD_SIZE,
        ensures
            record_result_view(out.0) == record_spec(buf@, out.1@),
            answered_by(users, decode_record(buf@).uid, out.1@),
            out.0 matches Ok(a) ==> a@.wf(),
    {
        let inner = AcctV3Inner::load_from_slice(buf);
        proof {
            lemma_encode_decode(buf@);
        }
        match inner.command() {
            Ok(command) => {
                let username = match users {
                    Some(table) => table.lookup(inner.ac_uid),
                    None => system_username(inner.ac_uid),
                };
                let ghost found = name_view(username);
                (Self::assemble(inner, command, username), Ghost(found))
            },
            Err(e) => (Err(e), Ghost(answer_of(users, inner.ac_uid))),
        }
    }

    /// Reads one record from exactly 64 bytes, given what the search for the
    /// name of its user gave.
    pub fn from_parts(buf: &[u8], username: Option<String>) -> (acct: Result<AcctV3, Error>)
        requires
            buf@.len() == RECORD_SIZE,
        ensures
            record_result_view(acct) == record_spec(buf@, name_view(username)),
            acct matches Ok(a) ==> a@.wf(),
    {
        let inner = AcctV3Inner::load_from_slice(buf);
        proof {
            lemma_encode_decode(buf@);
        }
        match inner.command() {
            Ok(command) => Self::assemble(inner, command, username),
            Err(e) => Err(e),
        }
    }

    /// Reads one record from exactly 64 bytes, with the user's name from
    /// `users`.
    pub fn from_slice_with(buf: &[u8], users: &UserTable) -> (acct: Result<AcctV3, Error>)
        requires
            buf@.len() == RECORD_SIZE,
        ensures
            record_result_view(acct) == record_spec(
                buf@,
                lookup_spec(users@, decode_record(buf@).uid),
            ),
            acct matches Ok(a) ==> a@.wf(),
    {
        Self::read(buf, Some(users)).0
    }

    /// Reads one record from exactly 64 bytes, with the user's name from the
    /// host's user database. What the database answers is not known here: the
    /// result is what `from_parts` gives for one of the possible answers.
    pub fn from_slice(buf: &[u8]) -> (acct: Result<AcctV3, Error>)
        requires
            buf@.len() == RECORD_SIZE,
        ensures
            exists|username: Option<Seq<char>>|
                record_result_view(acct) == #[trigger] record_spec(buf@, username),
            acct matches Ok(a) ==> a@.wf(),
    {
        let (acct, Ghost(found)) = Self::read(buf, None);
        assert(record_result_view(acct) == record_spec(buf@, found));
        acct
    }

    /// The record's 64 bytes on the wire.
    pub fn to_bytes(&self) -> (bytes: Vec<u8>)
        ensures
            bytes@ == encode_record(self@.inner),
            bytes@.len() == RECORD_SIZE,
    {
        self.inner.to_bytes()
    }

    /// Whether the record is of the version that is read.
    pub fn is_valid(&self) -> (valid: bool)
        ensures
            valid == self@.inner.is_valid(),
    {
        self.inner.is_valid()
    }

    /// Whether the process forked without a following exec.
    pub fn was_forked(&self) -> (set: bool)
        ensures
            set == has_flag(self@.inner.flag, AFORK),
    {
        test_flag(self.inner.ac_flag, AFORK)
    }

    /// Whether the process used super-user privileges.
    pub fn was_super_user(&self) -> (set: bool)
        ensures
            set == has_flag(self@.inner.flag, ASU),
    {
        test_flag(self.inner.ac_flag, ASU)
    }

    /// Whether the process dumped core.
    pub fn was_core_dumped(&self) -> (set: bool)
        ensures
            set == has_flag(self@.inner.flag, ACORE),
    {
        test_flag(self.inner.ac_flag, ACORE)
    }

    /// Whether the process was killed by a signal.
    pub fn was_killed(&self) -> (set: bool)
        ensures
            set == has_flag(self@.inner.flag, AXSIG),
    {
        test_flag(self.inner.ac_flag, AXSIG)
    }
}

/// Reading the bytes that a record is written as, with the name of its user
/// found again, gives the record back.
pub proof fn lemma_record_round_trip(r: AcctV3View)
    requires
        r.wf(),
    ensures
        encode_record(r.inner).len() == RECORD_SIZE,
        record_spec(encode_record(r.inner), Some(r.username)) == Ok::<AcctV3View, Error>(r),
{
    lemma_encode_len(r.inner);
    lemma_decode_encode(r.inner);
}

} // verus!
