//! A whole accounting file: records of 64 bytes each, one after the other,
//! with nothing before, between or after them.
//!
//! Reading is all or nothing. A record whose command name is not text, or
//! whose user is not found, ends the read with that error. A record of another
//! version than 3 is no error: it is left out, and nothing tells of it.

use vstd::prelude::*;
use vstd::slice::slice_subrange;
use crate::error::Error;
use crate::raw::{decode_record, encode_record, RECORD_SIZE};
use crate::record::{
    answer_of, answered_by, record_result_view, record_spec, AcctV3, AcctV3View,
};
use crate::userdb::{lookup_spec, UserTable};

verus! {

/// The `i`-th run of 64 bytes in `bytes`.
pub open spec fn window(bytes: Seq<u8>, i: int) -> Seq<u8> {
    bytes.subrange(i * 64, i * 64 + 64)
}

/// What each of the first `count` windows of `bytes` is read as, where
/// `names[i]` is what the search for the user of window `i` gave.
pub open spec fn outcomes(bytes: Seq<u8>, names: Seq<Option<Seq<char>>>, count: nat) -> Seq<
    Result<AcctV3View, Error>,
> {
    Seq::new(count, |i: int| record_spec(window(bytes, i), names[i]))
}

/// Whether window `i` is the first that is not read as a record.
pub open spec fn first_failure(read: Seq<Result<AcctV3View, Error>>, i: int) -> bool {
    &&& 0 <= i < read.len()
    &&& read[i] is Err
    &&& forall|j: int| 0 <= j < i ==> (#[trigger] read[j]) is Ok
}

/// Of the records, those of the version that is read, in their order.
pub open spec fn keep_valid(records: Seq<AcctV3View>) -> Seq<AcctV3View> {
    records.filter(|r: AcctV3View| r.inner.is_valid())
}

/// The records that were read, where all were.
pub open spec fn records_of(read: Seq<Result<AcctV3View, Error>>) -> Seq<AcctV3View> {
    read.map_values(|r: Result<AcctV3View, Error>| r->Ok_0)
}

/// What a buffer is read as, where `names[i]` is what the search for the user
/// of window `i` gave: the error of the first window that is not read as a
/// record, or else the records of version 3 in file order.
pub open spec fn load_spec(bytes: Seq<u8>, names: Seq<Option<Seq<char>>>) -> Result<
    Seq<AcctV3View>,
    Error,
>
    recommends
        names.len() == bytes.len() / 64,
{
    if bytes.len() % 64 != 0 {
        Err(Error::InvalidLength)
    } else {
        let read = outcomes(bytes, names, bytes.len() / 64);
        if exists|i: int| first_failure(read, i) {
            Err(read[choose|i: int| first_failure(read, i)]->Err_0)
        } else {
            Ok(keep_valid(records_of(read)))
        }
    }
}

/// What a table answers for the user of each window of `bytes`.
pub open spec fn table_names(bytes: Seq<u8>, users: Map<u32, Seq<char>>) -> Seq<Option<Seq<char>>> {
    Seq::new(bytes.len() / 64, |i: int| lookup_spec(users, decode_record(window(bytes, i)).uid))
}

/// The bytes that records are written as, one after the other.
pub open spec fn dump_spec(records: Seq<AcctV3View>) -> Seq<u8> {
    records.map_values(|r: AcctV3View| encode_record(r.inner)).flatten()
}

/// The records of an accounting file, in file order.
#[derive(Debug, Clone, PartialEq, Eq)]
pub struct AcctFile {
    /// The records.
    pub records: Vec<AcctV3>,
}

impl View for AcctFile {
    type V = Seq<AcctV3View>;

    open spec fn view(&self) -> Seq<AcctV3View> {
        self.records@.map_values(|a: AcctV3| a@)
    }
}

/// The outcome of reading a file, as a mathematical value.
pub open spec fn file_result_view(r: Result<AcctFile, Error>) -> Result<Seq<AcctV3View>, Error> {
    match r {
        Ok(file) => Ok(file@),
        Err(e) => Err(e),
    }
}

/// Keeping the valid ones of some records and one more is keeping the valid
/// ones of the records, and then the one more if it is valid.
pub proof fn lemma_keep_valid_push(records: Seq<AcctV3View>, r: AcctV3View)
    ensures
        keep_valid(records.push(r)) == if r.inner.is_valid() {
            keep_valid(records).push(r)
        } else {
            keep_valid(records)
        },
{
    reveal(Seq::filter);
    assert(records.push(r).drop_last() =~= records);
}

/// At most one window is the first that is not read as a record.
proof fn lemma_first_failure_unique(read: Seq<Result<AcctV3View, Error>>, i: int, j: int)
    requires
        first_failure(read, i),
        first_failure(read, j),
    ensures
        i == j,
{
    if i < j {
        assert(read[i] is Ok);
    } else if j < i {
        assert(read[j] is Ok);
    }
}

impl AcctFile {
    /// Reads a file, each user's name searched for in `users`, or in the
    /// host's user database where there is no table. Beside the result comes,
    /// for each window, the answer that the result was made with.
    fn read_all(buf: &[u8], users: Option<&UserTable>) -> (out: (
        Result<AcctFile, Error>,
        Ghost<Seq<Option<Seq<char>>>>,
    ))
        ensures
            out.1@.len() == buf@.len() / 64,
            forall|i: int|
                0 <= i < out.1@.len() ==> answered_by(
                    users,
                    decode_record(window(buf@, i)).uid,
                    #[trigger] out.1@[i],
                ),
            file_result_view(out.0) == load_spec(buf@, out.1@),
            out.0 matches Ok(file) ==> forall|i: int|
                0 <= i < file@.len() ==> (#[trigger] file@[i]).wf(),
    {
        let ghost rest = Seq::new(
            buf@.len() / 64,
            |i: int| answer_of(users, decode_record(window(buf@, i)).uid),
        );
        if buf.len() % RECORD_SIZE != 0 {
            return (Err(Error::InvalidLength), Ghost(rest));
        }
        let count: usize = buf.len() / RECORD_SIZE;
        let mut all: Vec<AcctV3> = Vec::new();
        let ghost mut names: Seq<Option<Seq<char>>> = Seq::empty();
        let mut i: usize = 0;
        assert(all@.map_values(|a: AcctV3| a@) =~= keep_valid(records_of(outcomes(buf@, names, 0))))
            by {
            reveal(Seq::filter);
        }
        while i < count
            invariant
                buf@.len() == count * 64,
                count * 64 <= usize::MAX,
                i <= count,
                names.len() == i,
                rest.len() == count,
                forall|j: int|
                    0 <= j < count ==> answered_by(
                        users,
                        decode_record(window(buf@, j)).uid,
                        #[trigger] rest[j],
                    ),
                forall|j: int|
                    0 <= j < i ==> answered_by(
                        users,
                        decode_record(window(buf@, j)).uid,
                        #[trigger] names[j],
                    ),
                forall|j: int| 0 <= j < i ==> (#[trigger] outcomes(buf@, names, i as nat)[j]) is Ok,
                all@.map_values(|a: AcctV3| a@) == keep_valid(
                    records_of(outcomes(buf@, names, i as nat)),
                ),
                forall|j: int| 0 <= j < all@.len() ==> (#[trigger] all@[j])@.wf(),
            decreases count - i,
        {
            assert(i * 64 + 64 <= count * 64 && RECORD_SIZE == 64);
            let chunk = slice_subrange(buf, i * RECORD_SIZE, i * RECORD_SIZE + RECORD_SIZE);
            assert(chunk@ == window(buf@, i as int));
            let (acct, Ghost(found)) = AcctV3::read(chunk, users);
            let ghost before = names;
            let ghost kept = all@.map_values(|a: AcctV3| a@);
            proof {
                names = names.push(found);
                assert(outcomes(buf@, names, i as nat) =~= outcomes(buf@, before, i as nat));
                assert(outcomes(buf@, names, (i + 1) as nat) =~= outcomes(
                    buf@,
                    names,
                    i as nat,
                ).push(record_result_view(acct)));
            }
            match acct {
                Ok(acct) => {
                    proof {
                        let read = outcomes(buf@, names, i as nat);
                        assert(records_of(read.push(Ok(acct@))) =~= records_of(read).push(acct@));
                        lemma_keep_valid_push(records_of(read), acct@);
                    }
                    if acct.is_valid() {
                        all.push(acct);
                        assert(all@.map_values(|a: AcctV3| a@) =~= kept.push(acct@));
                    }
                },
                Err(e) => {
                    let ghost full = Seq::new(
                        count as nat,
                        |j: int|
                            if j <= i {
                                names[j]
                            } else {
                                rest[j]
                            },
                    );
                    proof {
                        let read = outcomes(buf@, full, count as nat);
                        assert forall|j: int| 0 <= j < i implies (#[trigger] read[j]) is Ok by {
                            assert(read[j] == outcomes(buf@, names, i as nat)[j]);
                        }
                        assert(read[i as int] == Err::<AcctV3View, Error>(e));
                        assert(first_failure(read, i as int));
                        lemma_first_failure_unique(
                            read,
                            i as int,
                            choose|k: int| first_failure(read, k),
                        );
                    }
                    return (Err(e), Ghost(full));
                },
            }
            i += 1;
        }
        proof {
            let read = outcomes(buf@, names, count as nat);
            assert forall|k: int| !first_failure(read, k) by {
                if 0 <= k < read.len() {
                    assert(read[k] is Ok);
                }
            }
        }
        let file = AcctFile { records: all };
        assert forall|k: int| 0 <= k < file@.len() implies (#[trigger] file@[k]).wf() by {
            assert(file@[k] == file.records@[k]@);
        }
        (Ok(file), Ghost(names))
    }

    /// Reads a file, with the users' names from the host's user database. What
    /// the database answers is not known here: the result is what `load_spec`
    /// gives for some answers, one to each window.
    pub fn new(buf: &[u8]) -> (file: Result<AcctFile, Error>)
        ensures
            file == Err::<AcctFile, Error>(Error::InvalidLength) <==> buf@.len() % 64 != 0,
            exists|names: Seq<Option<Seq<char>>>|
                names.len() == buf@.len() / 64 && file_result_view(file) == #[trigger] load_spec(
                    buf@,
                    names,
                ),
            file matches Ok(f) ==> forall|i: int| 0 <= i < f@.len() ==> (#[trigger] f@[i]).wf(),
    {
        let (file, Ghost(names)) = Self::read_all(buf, None);
        proof {
            lemma_load_invalid_length(buf@, names);
            assert(file_result_view(file) == load_spec(buf@, names));
        }
        file
    }

    /// Reads a file, with the users' names from `users`.
    pub fn load(buf: &[u8], users: &UserTable) -> (file: Result<AcctFile, Error>)
        ensures
            file_result_view(file) == load_spec(buf@, table_names(buf@, users@)),
            file == Err::<AcctFile, Error>(Error::InvalidLength) <==> buf@.len() % 64 != 0,
            file matches Ok(f) ==> forall|i: int| 0 <= i < f@.len() ==> (#[trigger] f@[i]).wf(),
    {
        let (file, Ghost(names)) = Self::read_all(buf, Some(users));
        proof {
            lemma_load_invalid_length(buf@, names);
            assert(names =~= table_names(buf@, users@));
        }
        file
    }

    /// Writes the records out, one after the other.
    pub fn into_bytes(self) -> (bytes: Vec<u8>)
        ensures
            bytes@ == dump_spec(self@),
            bytes@.len() == self@.len() * 64,
    {
        let mut bytes: Vec<u8> = Vec::new();
        let mut i: usize = 0;
        assert(dump_spec(self@.take(0)) =~= Seq::<u8>::empty());
        while i < self.records.len()
            invariant
                i <= self.records.len(),
                bytes@ == dump_spec(self@.take(i as int)),
                bytes@.len() == i * 64,
            decreases self.records.len() - i,
        {
            self.records[i].inner.write_to(&mut bytes);
            proof {
                let done = self@.take(i as int);
                let r = self@[i as int];
                assert(self@.take(i + 1) =~= done.push(r));
                let encoded = done.map_values(|r: AcctV3View| encode_record(r.inner));
                assert(done.push(r).map_values(|r: AcctV3View| encode_record(r.inner))
                    =~= encoded.push(encode_record(r.inner)));
                encoded.lemma_flatten_push(encode_record(r.inner));
            }
            i += 1;
        }
        assert(self@.take(i as int) =~= self@);
        bytes
    }
}

/// A read ends with `InvalidLength` exactly where the buffer's length is not a
/// whole number of records.
pub proof fn lemma_load_invalid_length(bytes: Seq<u8>, names: Seq<Option<Seq<char>>>)
    ensures
        load_spec(bytes, names) == Err::<Seq<AcctV3View>, Error>(Error::InvalidLength)
            <==> bytes.len() % 64 != 0,
{
    if bytes.len() % 64 == 0 {
        let read = outcomes(bytes, names, bytes.len() / 64);
        if exists|i: int| first_failure(read, i) {
            let i = choose|i: int| first_failure(read, i);
            assert(read[i] == record_spec(window(bytes, i), names[i]));
        }
    }
}

} // verus!
