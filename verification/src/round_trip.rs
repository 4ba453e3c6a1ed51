//! Reading and writing a whole file undo each other, as far as the version
//! filter lets them: what a read leaves out is not written back.

use vstd::prelude::*;
use crate::error::Error;
use crate::file::{
    dump_spec, first_failure, keep_valid, lemma_keep_valid_push, load_spec, outcomes, records_of,
    window,
};
use crate::raw::{decode_record, encode_record, lemma_encode_decode, lemma_encode_len, RawRecord};
use crate::record::{lemma_record_round_trip, record_spec, AcctV3View};

verus! {

/// The windows of a buffer, in file order.
pub open spec fn windows(bytes: Seq<u8>, count: nat) -> Seq<Seq<u8>> {
    Seq::new(count, |i: int| window(bytes, i))
}

/// Of some windows, those that hold a record of the version that is read.
pub open spec fn valid_windows(all: Seq<Seq<u8>>) -> Seq<Seq<u8>> {
    all.filter(|w: Seq<u8>| decode_record(w).is_valid())
}

/// The wire fields of each record.
pub open spec fn inners(records: Seq<AcctV3View>) -> Seq<RawRecord> {
    records.map_values(|r: AcctV3View| r.inner)
}

/// The names of the records' users, as the answers of a search that found
/// each of them.
pub open spec fn found_names(records: Seq<AcctV3View>) -> Seq<Option<Seq<char>>> {
    records.map_values(|r: AcctV3View| Some(r.username))
}

/// Records are written as 64 bytes each, and the `i`-th window of what is
/// written holds the `i`-th record.
pub proof fn lemma_dump_windows(records: Seq<AcctV3View>)
    requires
        forall|i: int| 0 <= i < records.len() ==> (#[trigger] records[i]).inner.wf(),
    ensures
        dump_spec(records).len() == 64 * records.len(),
        forall|i: int|
            0 <= i < records.len() ==> #[trigger] window(dump_spec(records), i) == encode_record(
                records[i].inner,
            ),
    decreases records.len(),
{
    let encode = |r: AcctV3View| encode_record(r.inner);
    if records.len() == 0 {
        assert(records.map_values(encode) =~= Seq::<Seq<u8>>::empty());
    } else {
        let init = records.drop_last();
        let last = records.last();
        lemma_dump_windows(init);
        lemma_encode_len(last.inner);
        assert(records.map_values(encode) =~= init.map_values(encode).push(encode(last)));
        init.map_values(encode).lemma_flatten_push(encode(last));
        assert(dump_spec(records) == dump_spec(init) + encode_record(last.inner));
        assert forall|i: int| 0 <= i < records.len() implies #[trigger] window(
            dump_spec(records),
            i,
        ) == encode_record(records[i].inner) by {
            if i < init.len() {
                assert(window(dump_spec(init), i) == encode_record(init[i].inner));
                assert(window(dump_spec(records), i) =~= window(dump_spec(init), i));
            } else {
                assert(window(dump_spec(records), i) =~= encode_record(last.inner));
            }
        }
    }
}

/// Where every record is of the version that is read, the version filter
/// keeps them all.
pub proof fn lemma_keep_valid_all(records: Seq<AcctV3View>)
    requires
        forall|i: int| 0 <= i < records.len() ==> (#[trigger] records[i]).inner.is_valid(),
    ensures
        keep_valid(records) == records,
    decreases records.len(),
{
    if records.len() == 0 {
        reveal(Seq::filter);
    } else {
        let init = records.drop_last();
        lemma_keep_valid_all(init);
        lemma_keep_valid_push(init, records.last());
        assert(init.push(records.last()) =~= records);
    }
}

/// Reading what was written gives the records back: for records of version 3
/// whose command and time are those of their wire fields, and with each user's
/// name found again.
pub proof fn lemma_load_dump(records: Seq<AcctV3View>)
    requires
        forall|i: int| 0 <= i < records.len() ==> (#[trigger] records[i]).wf(),
        forall|i: int| 0 <= i < records.len() ==> (#[trigger] records[i]).inner.is_valid(),
    ensures
        load_spec(dump_spec(records), found_names(records)) == Ok::<Seq<AcctV3View>, Error>(
            records,
        ),
{
    let bytes = dump_spec(records);
    let names = found_names(records);
    lemma_dump_windows(records);
    let read = outcomes(bytes, names, bytes.len() / 64);
    assert forall|i: int| 0 <= i < read.len() implies #[trigger] read[i] == Ok::<
        AcctV3View,
        Error,
    >(records[i]) by {
        lemma_record_round_trip(records[i]);
        assert(window(bytes, i) == encode_record(records[i].inner));
    }
    assert forall|i: int| !first_failure(read, i) by {
        if 0 <= i < read.len() {
            assert(read[i] is Ok);
        }
    }
    assert(records_of(read) =~= records);
    lemma_keep_valid_all(records);
}

/// Where no window is the first that is not read, every window is read.
proof fn lemma_all_read(read: Seq<Result<AcctV3View, Error>>, upto: int)
    requires
        forall|i: int| !first_failure(read, i),
        0 <= upto <= read.len(),
    ensures
        forall|j: int| 0 <= j < upto ==> (#[trigger] read[j]) is Ok,
    decreases upto,
{
    if upto > 0 {
        lemma_all_read(read, upto - 1);
        if read[upto - 1] is Err {
            assert(first_failure(read, upto - 1));
        }
    }
}

/// Keeping the windows of valid records among some windows and one more.
proof fn lemma_valid_windows_push(all: Seq<Seq<u8>>, w: Seq<u8>)
    ensures
        valid_windows(all.push(w)) == if decode_record(w).is_valid() {
            valid_windows(all).push(w)
        } else {
            valid_windows(all)
        },
{
    reveal(Seq::filter);
    assert(all.push(w).drop_last() =~= all);
}

/// The records read from the first `count` windows, where all of these were
/// read, are what the windows of valid records among them spell.
proof fn lemma_kept_upto(bytes: Seq<u8>, names: Seq<Option<Seq<char>>>, count: nat)
    requires
        64 * count <= bytes.len(),
        forall|j: int| 0 <= j < count ==> record_spec(window(bytes, j), names[j]) is Ok,
    ensures
        ({
            let kept = keep_valid(records_of(outcomes(bytes, names, count)));
            let from = valid_windows(windows(bytes, count));
            &&& kept.len() == from.len()
            &&& forall|j: int|
                0 <= j < kept.len() ==> {
                    &&& (#[trigger] kept[j]).wf()
                    &&& kept[j].inner == decode_record(from[j])
                    &&& kept[j].inner.is_valid()
                    &&& encode_record(kept[j].inner) == from[j]
                }
        }),
    decreases count,
{
    if count == 0 {
        reveal(Seq::filter);
        assert(records_of(outcomes(bytes, names, 0)) =~= Seq::<AcctV3View>::empty());
        assert(windows(bytes, 0) =~= Seq::<Seq<u8>>::empty());
    } else {
        let before = (count - 1) as nat;
        lemma_kept_upto(bytes, names, before);
        let w = window(bytes, before as int);
        let r = record_spec(w, names[before as int])->Ok_0;
        lemma_encode_decode(w);
        assert(records_of(outcomes(bytes, names, count)) =~= records_of(
            outcomes(bytes, names, before),
        ).push(r));
        assert(windows(bytes, count) =~= windows(bytes, before).push(w));
        lemma_keep_valid_push(records_of(outcomes(bytes, names, before)), r);
        lemma_valid_windows_push(windows(bytes, before), w);
    }
}

/// The windows of a buffer that is a whole number of records, one after the
/// other, are the buffer.
proof fn lemma_windows_flatten(bytes: Seq<u8>, count: nat)
    requires
        64 * count <= bytes.len(),
    ensures
        windows(bytes, count).flatten() == bytes.take(64 * count as int),
    decreases count,
{
    if count == 0 {
        assert(windows(bytes, 0) =~= Seq::<Seq<u8>>::empty());
        assert(bytes.take(0) =~= Seq::<u8>::empty());
    } else {
        let before = (count - 1) as nat;
        lemma_windows_flatten(bytes, before);
        let w = window(bytes, before as int);
        assert(windows(bytes, count) =~= windows(bytes, before).push(w));
        windows(bytes, before).lemma_flatten_push(w);
        assert(bytes.take(64 * before as int) + w =~= bytes.take(64 * count as int));
    }
}

/// Where all of some windows hold valid records, they are all kept.
proof fn lemma_valid_windows_all(all: Seq<Seq<u8>>)
    requires
        forall|i: int| 0 <= i < all.len() ==> decode_record(#[trigger] all[i]).is_valid(),
    ensures
        valid_windows(all) == all,
    decreases all.len(),
{
    if all.len() == 0 {
        reveal(Seq::filter);
    } else {
        lemma_valid_windows_all(all.drop_last());
        lemma_valid_windows_push(all.drop_last(), all.last());
        assert(all.drop_last().push(all.last()) =~= all);
    }
}

/// What a read hands out, whatever the searches for the users gave: the
/// records that the windows of version 3 spell, in file order, each with the
/// command and time of its wire fields. Written back, they are those windows
/// one after the other: what the version filter left out stays out.
pub proof fn lemma_dump_load(bytes: Seq<u8>, names: Seq<Option<Seq<char>>>)
    requires
        load_spec(bytes, names) is Ok,
    ensures
        ({
            let records = load_spec(bytes, names)->Ok_0;
            let from = valid_windows(windows(bytes, bytes.len() / 64));
            &&& bytes.len() % 64 == 0
            &&& inners(records) == from.map_values(|w: Seq<u8>| decode_record(w))
            &&& forall|j: int|
                0 <= j < records.len() ==> (#[trigger] records[j]).wf()
                    && records[j].inner.is_valid()
            &&& dump_spec(records) == from.flatten()
        }),
{
    let count = bytes.len() / 64;
    let read = outcomes(bytes, names, count);
    let records = load_spec(bytes, names)->Ok_0;
    let from = valid_windows(windows(bytes, count));
    lemma_all_read(read, read.len() as int);
    assert forall|j: int| 0 <= j < count implies record_spec(window(bytes, j), names[j]) is Ok by {
        assert(read[j] is Ok);
    }
    lemma_kept_upto(bytes, names, count);
    assert(inners(records) =~= from.map_values(|w: Seq<u8>| decode_record(w)));
    assert(records.map_values(|r: AcctV3View| encode_record(r.inner)) =~= from);
}

/// Writing what was read gives the buffer back, where every record in it is
/// of version 3.
pub proof fn lemma_dump_load_all_valid(bytes: Seq<u8>, names: Seq<Option<Seq<char>>>)
    requires
        load_spec(bytes, names) is Ok,
        forall|i: int|
            0 <= i < bytes.len() / 64 ==> decode_record(#[trigger] window(bytes, i)).is_valid(),
    ensures
        dump_spec(load_spec(bytes, names)->Ok_0) == bytes,
{
    let count = bytes.len() / 64;
    lemma_dump_load(bytes, names);
    lemma_valid_windows_all(windows(bytes, count));
    lemma_windows_flatten(bytes, count);
    assert(bytes.take(64 * count as int) =~= bytes);
}

} // verus!
