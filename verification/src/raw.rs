//! The fixed-width record of an accounting file, as it lies on the wire.
//!
//! A record is 64 bytes: every field in its order, multi-byte numbers least
//! significant byte first, nothing between the fields.

use vstd::prelude::*;
use crate::error::Error;
use crate::text::{string_from_utf8, utf8_text};
use crate::wire::{
    le_u16, le_u32, lemma_u16_read_written, lemma_u16_written_read, lemma_u32_read_written,
    lemma_u32_written_read, read_u16, read_u32, u16_le_bytes, u32_le_bytes, write_u16, write_u32,
};

verus! {

/// The width of one record on the wire, in bytes.
pub const RECORD_SIZE: usize = 64;

/// The width of the command name field, in bytes.
pub const COMM_SIZE: usize = 16;

/// The only version of the layout that is read.
pub const ACCT_VERSION: u8 = 3;

/// A record as a mathematical value: the fields of the wire layout, in their
/// order on the wire.
pub struct RawRecord {
    /// The behaviour bits, at byte 0.
    pub flag: u8,
    /// The version of the layout, at byte 1.
    pub version: u8,
    /// The controlling terminal, at byte 2.
    pub tty: u16,
    /// The exit status, at byte 4.
    pub exitcode: u32,
    /// The user id, at byte 8.
    pub uid: u32,
    /// The group id, at byte 12.
    pub gid: u32,
    /// The process id, at byte 16.
    pub pid: u32,
    /// The parent's process id, at byte 20.
    pub ppid: u32,
    /// The start of the process in seconds since the epoch, at byte 24.
    pub btime: u32,
    /// The elapsed time, at byte 28: the bits of an IEEE 754 single.
    pub etime: u32,
    /// The user CPU time, a `comp_t`, at byte 32.
    pub utime: u16,
    /// The system CPU time, a `comp_t`, at byte 34.
    pub stime: u16,
    /// The average memory use, at byte 36.
    pub mem: u16,
    /// The characters transferred, at byte 38.
    pub io: u16,
    /// The blocks read or written, at byte 40.
    pub rw: u16,
    /// The minor page faults, at byte 42.
    pub minflt: u16,
    /// The major page faults, at byte 44.
    pub majflt: u16,
    /// The swaps, at byte 46.
    pub swaps: u16,
    /// The command name, at byte 48: 16 bytes, padded with NUL bytes.
    pub comm: Seq<u8>,
}

impl RawRecord {
    /// A record's command name has exactly the width of its field.
    pub open spec fn wf(self) -> bool {
        self.comm.len() == COMM_SIZE
    }

    /// Whether the record is of the version that is read.
    pub open spec fn is_valid(self) -> bool {
        self.version == ACCT_VERSION
    }
}

/// The record that 64 bytes spell.
pub open spec fn decode_record(bytes: Seq<u8>) -> RawRecord
    recommends
        bytes.len() == RECORD_SIZE,
{
    RawRecord {
        flag: bytes[0],
        version: bytes[1],
        tty: le_u16(bytes, 2),
        exitcode: le_u32(bytes, 4),
        uid: le_u32(bytes, 8),
        gid: le_u32(bytes, 12),
        pid: le_u32(bytes, 16),
        ppid: le_u32(bytes, 20),
        btime: le_u32(bytes, 24),
        etime: le_u32(bytes, 28),
        utime: le_u16(bytes, 32),
        stime: le_u16(bytes, 34),
        mem: le_u16(bytes, 36),
        io: le_u16(bytes, 38),
        rw: le_u16(bytes, 40),
        minflt: le_u16(bytes, 42),
        majflt: le_u16(bytes, 44),
        swaps: le_u16(bytes, 46),
        comm: bytes.subrange(48, 64),
    }
}

/// The bytes that a record is written as.
pub open spec fn encode_record(r: RawRecord) -> Seq<u8> {
    seq![r.flag, r.version] + u16_le_bytes(r.tty) + u32_le_bytes(r.exitcode) + u32_le_bytes(r.uid)
        + u32_le_bytes(r.gid) + u32_le_bytes(r.pid) + u32_le_bytes(r.ppid) + u32_le_bytes(r.btime)
        + u32_le_bytes(r.etime) + u16_le_bytes(r.utime) + u16_le_bytes(r.stime) + u16_le_bytes(
        r.mem,
    ) + u16_le_bytes(r.io) + u16_le_bytes(r.rw) + u16_le_bytes(r.minflt) + u16_le_bytes(r.majflt)
        + u16_le_bytes(r.swaps) + r.comm
}

/// A record in memory: the fields of the wire layout, nothing more.
#[derive(Debug, Clone, Copy, PartialEq, Eq)]
pub struct AcctV3Inner {
    /// The behaviour bits (see `flags`).
    pub ac_flag: u8,
    /// The version of the layout.
    pub ac_version: u8,
    /// The controlling terminal.
    pub ac_tty: u16,
    /// The exit status.
    pub ac_exitcode: u32,
    /// The user id.
    pub ac_uid: u32,
    /// The group id.
    pub ac_gid: u32,
    /// The process id.
    pub ac_pid: u32,
    /// The parent's process id.
    pub ac_ppid: u32,
    /// The start of the process, in seconds since the epoch.
    pub ac_btime: u32,
    /// The elapsed time: the bits of an IEEE 754 single.
    pub ac_etime: u32,
    /// The user CPU time, a `comp_t`.
    pub ac_utime: u16,
    /// The system CPU time, a `comp_t`.
    pub ac_stime: u16,
    /// The average memory use.
    pub ac_mem: u16,
    /// The characters transferred.
    pub ac_io: u16,
    /// The blocks read or written.
    pub ac_rw: u16,
    /// The minor page faults.
    pub ac_minflt: u16,
    /// The major page faults.
    pub ac_majflt: u16,
    /// The swaps.
    pub ac_swaps: u16,
    /// The command name, padded with NUL bytes.
    pub ac_comm: [u8; 16],
}

impl View for AcctV3Inner {
    type V = RawRecord;

    open spec fn view(&self) -> RawRecord {
        RawRecord {
            flag: self.ac_flag,
            version: self.ac_version,
            tty: self.ac_tty,
            exitcode: self.ac_exitcode,
            uid: self.ac_uid,
            gid: self.ac_gid,
            pid: self.ac_pid,
            ppid: self.ac_ppid,
            btime: self.ac_btime,
            etime: self.ac_etime,
            utime: self.ac_utime,
            stime: self.ac_stime,
            mem: self.ac_mem,
            io: self.ac_io,
            rw: self.ac_rw,
            minflt: self.ac_minflt,
            majflt: self.ac_majflt,
            swaps: self.ac_swaps,
            comm: self.ac_comm@,
        }
    }
}

impl AcctV3Inner {
    /// Reads one record from exactly 64 bytes.
    pub fn load_from_slice(buf: &[u8]) -> (acct: AcctV3Inner)
        requires
            buf@.len() == RECORD_SIZE,
        ensures
            acct@ == decode_record(buf@),
            acct@.wf(),
    {
        let ac_comm: [u8; 16] = [
            buf[48],
            buf[49],
            buf[50],
            buf[51],
            buf[52],
            buf[53],
            buf[54],
            buf[55],
            buf[56],
            buf[57],
            buf[58],
            buf[59],
            buf[60],
            buf[61],
            buf[62],
            buf[63],
        ];
        assert(ac_comm@ =~= buf@.subrange(48, 64));
        AcctV3Inner {
            ac_flag: buf[0],
            ac_version: buf[1],
            ac_tty: read_u16(buf, 2),
            ac_exitcode: read_u32(buf, 4),
            ac_uid: read_u32(buf, 8),
            ac_gid: read_u32(buf, 12),
            ac_pid: read_u32(buf, 16),
            ac_ppid: read_u32(buf, 20),
            ac_btime: read_u32(buf, 24),
            ac_etime: read_u32(buf, 28),
            ac_utime: read_u16(buf, 32),
            ac_stime: read_u16(buf, 34),
            ac_mem: read_u16(buf, 36),
            ac_io: read_u16(buf, 38),
            ac_rw: read_u16(buf, 40),
            ac_minflt: read_u16(buf, 42),
            ac_majflt: read_u16(buf, 44),
            ac_swaps: read_u16(buf, 46),
            ac_comm,
        }
    }

    /// Appends the record's 64 bytes to `out`.
    pub fn write_to(&self, out: &mut Vec<u8>)
        ensures
            final(out)@ == old(out)@ + encode_record(self@),
            encode_record(self@).len() == RECORD_SIZE,
    {
        out.push(self.ac_flag);
        out.push(self.ac_version);
        assert(out@ =~= old(out)@ + seq![self.ac_flag, self.ac_version]);
        write_u16(out, self.ac_tty);
        write_u32(out, self.ac_exitcode);
        write_u32(out, self.ac_uid);
        write_u32(out, self.ac_gid);
        write_u32(out, self.ac_pid);
        write_u32(out, self.ac_ppid);
        write_u32(out, self.ac_btime);
        write_u32(out, self.ac_etime);
        write_u16(out, self.ac_utime);
        write_u16(out, self.ac_stime);
        write_u16(out, self.ac_mem);
        write_u16(out, self.ac_io);
        write_u16(out, self.ac_rw);
        write_u16(out, self.ac_minflt);
        write_u16(out, self.ac_majflt);
        write_u16(out, self.ac_swaps);
        let ghost fields = out@;
        let mut i: usize = 0;
        while i < 16
            invariant
                i <= 16,
                out@ == fields + self.ac_comm@.subrange(0, i as int),
            decreases 16 - i,
        {
            out.push(self.ac_comm[i]);
            assert(out@ =~= fields + self.ac_comm@.subrange(0, i + 1));
            i += 1;
        }
        proof {
            assert(self.ac_comm@.subrange(0, 16) =~= self.ac_comm@);
            lemma_encode_len(self@);
            lemma_concat_after(old(out)@, fields, self@);
        }
    }

    /// The record's 64 bytes.
    pub fn to_bytes(&self) -> (bytes: Vec<u8>)
        ensures
            bytes@ == encode_record(self@),
            bytes@.len() == RECORD_SIZE,
    {
        let mut bytes: Vec<u8> = Vec::new();
        self.write_to(&mut bytes);
        assert(bytes@ =~= encode_record(self@));
        bytes
    }

    /// The command name as text, NUL bytes and all.
    pub fn command(&self) -> (text: core::result::Result<String, Error>)
        ensures
            match text {
                Ok(s) => utf8_text(self@.comm) == Some(s@),
                Err(e) => e == Error::MalformedText && utf8_text(self@.comm) is None,
            },
    {
        let mut bytes: Vec<u8> = Vec::new();
        let mut i: usize = 0;
        while i < 16
            invariant
                i <= 16,
                bytes@ == self.ac_comm@.subrange(0, i as int),
            decreases 16 - i,
        {
            bytes.push(self.ac_comm[i]);
            assert(bytes@ =~= self.ac_comm@.subrange(0, i + 1));
            i += 1;
        }
        assert(bytes@ =~= self.ac_comm@);
        match string_from_utf8(bytes) {
            Some(s) => Ok(s),
            None => Err(Error::MalformedText),
        }
    }

    /// Whether the record is of the version that is read.
    pub fn is_valid(&self) -> (valid: bool)
        ensures
            valid == self@.is_valid(),
    {
        self.ac_version == ACCT_VERSION
    }
}

/// Where each field lies in a run of bytes that is put together as a record
/// is.
proof fn lemma_layout(head: Seq<u8>, w: Seq<Seq<u8>>, comm: Seq<u8>)
    requires
        head.len() == 2,
        w.len() == 16,
        w[0].len() == 2,
        forall|k: int| 1 <= k <= 7 ==> (#[trigger] w[k]).len() == 4,
        forall|k: int| 8 <= k <= 15 ==> (#[trigger] w[k]).len() == 2,
        comm.len() == 16,
    ensures
        ({
            let s = head + w[0] + w[1] + w[2] + w[3] + w[4] + w[5] + w[6] + w[7] + w[8] + w[9]
                + w[10] + w[11] + w[12] + w[13] + w[14] + w[15] + comm;
            &&& s.len() == 64
            &&& s.subrange(0, 2) == head
            &&& s.subrange(2, 4) == w[0]
            &&& forall|k: int| 1 <= k <= 7 ==> s.subrange(4 * k, 4 * k + 4) == #[trigger] w[k]
            &&& forall|k: int| 8 <= k <= 15 ==> s.subrange(2 * k + 16, 2 * k + 18) == #[trigger] w[k]
            &&& s.subrange(48, 64) == comm
        }),
{
    let q0 = head + w[0];
    let q1 = q0 + w[1];
    let q2 = q1 + w[2];
    let q3 = q2 + w[3];
    let q4 = q3 + w[4];
    let q5 = q4 + w[5];
    let q6 = q5 + w[6];
    let q7 = q6 + w[7];
    let q8 = q7 + w[8];
    let q9 = q8 + w[9];
    let q10 = q9 + w[10];
    let q11 = q10 + w[11];
    let q12 = q11 + w[12];
    let q13 = q12 + w[13];
    let q14 = q13 + w[14];
    let q15 = q14 + w[15];
    let s = q15 + comm;
    assert(q0.len() == 4);
    assert(q1.len() == 8);
    assert(q2.len() == 12);
    assert(q3.len() == 16);
    assert(q4.len() == 20);
    assert(q5.len() == 24);
    assert(q6.len() == 28);
    assert(q7.len() == 32);
    assert(q8.len() == 34);
    assert(q9.len() == 36);
    assert(q10.len() == 38);
    assert(q11.len() == 40);
    assert(q12.len() == 42);
    assert(q13.len() == 44);
    assert(q14.len() == 46);
    assert(q15.len() == 48);
}

/// The fields of a record after its first two bytes and before its command
/// name, each as it is written.
spec fn field_bytes(r: RawRecord) -> Seq<Seq<u8>> {
    seq![
        u16_le_bytes(r.tty),
        u32_le_bytes(r.exitcode),
        u32_le_bytes(r.uid),
        u32_le_bytes(r.gid),
        u32_le_bytes(r.pid),
        u32_le_bytes(r.ppid),
        u32_le_bytes(r.btime),
        u32_le_bytes(r.etime),
        u16_le_bytes(r.utime),
        u16_le_bytes(r.stime),
        u16_le_bytes(r.mem),
        u16_le_bytes(r.io),
        u16_le_bytes(r.rw),
        u16_le_bytes(r.minflt),
        u16_le_bytes(r.majflt),
        u16_le_bytes(r.swaps),
    ]
}

/// A record is written as exactly 64 bytes.
pub proof fn lemma_encode_len(r: RawRecord)
    requires
        r.wf(),
    ensures
        encode_record(r).len() == RECORD_SIZE,
{
    lemma_layout(seq![r.flag, r.version], field_bytes(r), r.comm);
}

/// Reading what was written gives the record back.
pub proof fn lemma_decode_encode(r: RawRecord)
    requires
        r.wf(),
    ensures
        decode_record(encode_record(r)) == r,
{
    let b = encode_record(r);
    let head = seq![r.flag, r.version];
    let w = field_bytes(r);
    lemma_layout(head, w, r.comm);
    assert(b.subrange(0, 2) == head);
    assert(b[0] == head[0] && b[1] == head[1]);
    assert(b.subrange(2, 4) == w[0]);
    lemma_u16_read_written(b, 2, r.tty);
    assert(b.subrange(4, 8) == w[1]);
    lemma_u32_read_written(b, 4, r.exitcode);
    assert(b.subrange(8, 12) == w[2]);
    lemma_u32_read_written(b, 8, r.uid);
    assert(b.subrange(12, 16) == w[3]);
    lemma_u32_read_written(b, 12, r.gid);
    assert(b.subrange(16, 20) == w[4]);
    lemma_u32_read_written(b, 16, r.pid);
    assert(b.subrange(20, 24) == w[5]);
    lemma_u32_read_written(b, 20, r.ppid);
    assert(b.subrange(24, 28) == w[6]);
    lemma_u32_read_written(b, 24, r.btime);
    assert(b.subrange(28, 32) == w[7]);
    lemma_u32_read_written(b, 28, r.etime);
    assert(b.subrange(32, 34) == w[8]);
    lemma_u16_read_written(b, 32, r.utime);
    assert(b.subrange(34, 36) == w[9]);
    lemma_u16_read_written(b, 34, r.stime);
    assert(b.subrange(36, 38) == w[10]);
    lemma_u16_read_written(b, 36, r.mem);
    assert(b.subrange(38, 40) == w[11]);
    lemma_u16_read_written(b, 38, r.io);
    assert(b.subrange(40, 42) == w[12]);
    lemma_u16_read_written(b, 40, r.rw);
    assert(b.subrange(42, 44) == w[13]);
    lemma_u16_read_written(b, 42, r.minflt);
    assert(b.subrange(44, 46) == w[14]);
    lemma_u16_read_written(b, 44, r.majflt);
    assert(b.subrange(46, 48) == w[15]);
    lemma_u16_read_written(b, 46, r.swaps);
}

/// Each field of the record that 64 bytes spell is written as the bytes it was
/// read from.
proof fn lemma_fields_of_decoded(bytes: Seq<u8>)
    requires
        bytes.len() == RECORD_SIZE,
    ensures
        ({
            let r = decode_record(bytes);
            let w = field_bytes(r);
            &&& seq![r.flag, r.version] == bytes.subrange(0, 2)
            &&& w.len() == 16
            &&& w[0] == bytes.subrange(2, 4)
            &&& forall|k: int| 1 <= k <= 7 ==> #[trigger] w[k] == bytes.subrange(4 * k, 4 * k + 4)
            &&& forall|k: int|
                8 <= k <= 15 ==> #[trigger] w[k] == bytes.subrange(2 * k + 16, 2 * k + 18)
            &&& r.comm == bytes.subrange(48, 64)
        }),
{
    let r = decode_record(bytes);
    lemma_u16_written_read(bytes, 2);
    lemma_u32_written_read(bytes, 4);
    lemma_u32_written_read(bytes, 8);
    lemma_u32_written_read(bytes, 12);
    lemma_u32_written_read(bytes, 16);
    lemma_u32_written_read(bytes, 20);
    lemma_u32_written_read(bytes, 24);
    lemma_u32_written_read(bytes, 28);
    lemma_u16_written_read(bytes, 32);
    lemma_u16_written_read(bytes, 34);
    lemma_u16_written_read(bytes, 36);
    lemma_u16_written_read(bytes, 38);
    lemma_u16_written_read(bytes, 40);
    lemma_u16_written_read(bytes, 42);
    lemma_u16_written_read(bytes, 44);
    lemma_u16_written_read(bytes, 46);
    assert(seq![r.flag, r.version] =~= bytes.subrange(0, 2));
    let w = field_bytes(r);
    assert(w[1] == bytes.subrange(4, 8));
    assert(w[2] == bytes.subrange(8, 12));
    assert(w[3] == bytes.subrange(12, 16));
    assert(w[4] == bytes.subrange(16, 20));
    assert(w[5] == bytes.subrange(20, 24));
    assert(w[6] == bytes.subrange(24, 28));
    assert(w[7] == bytes.subrange(28, 32));
    assert(w[8] == bytes.subrange(32, 34));
    assert(w[9] == bytes.subrange(34, 36));
    assert(w[10] == bytes.subrange(36, 38));
    assert(w[11] == bytes.subrange(38, 40));
    assert(w[12] == bytes.subrange(40, 42));
    assert(w[13] == bytes.subrange(42, 44));
    assert(w[14] == bytes.subrange(44, 46));
    assert(w[15] == bytes.subrange(46, 48));
}

/// Windows cut from 64 bytes at the fields' places, put together in order, are
/// those 64 bytes.
proof fn lemma_rebuild(bytes: Seq<u8>, head: Seq<u8>, w: Seq<Seq<u8>>, comm: Seq<u8>)
    requires
        bytes.len() == 64,
        head == bytes.subrange(0, 2),
        w.len() == 16,
        w[0] == bytes.subrange(2, 4),
        forall|k: int| 1 <= k <= 7 ==> #[trigger] w[k] == bytes.subrange(4 * k, 4 * k + 4),
        forall|k: int| 8 <= k <= 15 ==> #[trigger] w[k] == bytes.subrange(2 * k + 16, 2 * k + 18),
        comm == bytes.subrange(48, 64),
    ensures
        head + w[0] + w[1] + w[2] + w[3] + w[4] + w[5] + w[6] + w[7] + w[8] + w[9] + w[10] + w[11]
            + w[12] + w[13] + w[14] + w[15] + comm == bytes,
{
    let e = head + w[0] + w[1] + w[2] + w[3] + w[4] + w[5] + w[6] + w[7] + w[8] + w[9] + w[10]
        + w[11] + w[12] + w[13] + w[14] + w[15] + comm;
    lemma_layout(head, w, comm);
    assert forall|i: int| 0 <= i < 64 implies e[i] == bytes[i] by {
        if i < 2 {
            lemma_same_in_window(e, bytes, 0, 2, i);
        } else if i < 4 {
            lemma_same_in_window(e, bytes, 2, 4, i);
        } else if i < 32 {
            let k = i / 4;
            assert(e.subrange(4 * k, 4 * k + 4) == w[k]);
            lemma_same_in_window(e, bytes, 4 * k, 4 * k + 4, i);
        } else if i < 48 {
            let k = (i - 16) / 2;
            assert(e.subrange(2 * k + 16, 2 * k + 18) == w[k]);
            lemma_same_in_window(e, bytes, 2 * k + 16, 2 * k + 18, i);
        } else {
            lemma_same_in_window(e, bytes, 48, 64, i);
        }
    }
    assert(e =~= bytes);
}

/// Writing what was read gives the bytes back.
pub proof fn lemma_encode_decode(bytes: Seq<u8>)
    requires
        bytes.len() == RECORD_SIZE,
    ensures
        decode_record(bytes).wf(),
        encode_record(decode_record(bytes)) == bytes,
{
    let r = decode_record(bytes);
    lemma_fields_of_decoded(bytes);
    lemma_rebuild(bytes, seq![r.flag, r.version], field_bytes(r), r.comm);
}

/// Two runs of bytes that agree on a window agree at each index in it.
proof fn lemma_same_in_window(a: Seq<u8>, b: Seq<u8>, lo: int, hi: int, i: int)
    requires
        0 <= lo <= i < hi,
        hi <= a.len(),
        hi <= b.len(),
        a.subrange(lo, hi) == b.subrange(lo, hi),
    ensures
        a[i] == b[i],
{
    assert(a[i] == a.subrange(lo, hi)[i - lo]);
    assert(b[i] == b.subrange(lo, hi)[i - lo]);
}

/// What `write_to` has appended, field after field, is the record as written.
proof fn lemma_concat_after(before: Seq<u8>, fields: Seq<u8>, r: RawRecord)
    requires
        fields == before + seq![r.flag, r.version] + u16_le_bytes(r.tty) + u32_le_bytes(r.exitcode)
            + u32_le_bytes(r.uid) + u32_le_bytes(r.gid) + u32_le_bytes(r.pid) + u32_le_bytes(
            r.ppid,
        ) + u32_le_bytes(r.btime) + u32_le_bytes(r.etime) + u16_le_bytes(r.utime) + u16_le_bytes(
            r.stime,
        ) + u16_le_bytes(r.mem) + u16_le_bytes(r.io) + u16_le_bytes(r.rw) + u16_le_bytes(r.minflt)
            + u16_le_bytes(r.majflt) + u16_le_bytes(r.swaps),
    ensures
        fields + r.comm == before + encode_record(r),
{
    assert(fields + r.comm =~= before + encode_record(r));
}

} // verus!
