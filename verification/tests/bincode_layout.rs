//! The wire layout against bincode's fixed-width little-endian encoding of the
//! same fields in the same order.

use acct::AcctV3Inner;

type Head = (u8, u8, u16, u32, u32, u32, u32, u32, u32);
type Tail = (f32, u16, u16, u16, u16, u16, u16, u16, u16);
type Fields = (Head, Tail, [u8; 16]);

fn fields_of(r: &AcctV3Inner) -> Fields {
    (
        (
            r.ac_flag,
            r.ac_version,
            r.ac_tty,
            r.ac_exitcode,
            r.ac_uid,
            r.ac_gid,
            r.ac_pid,
            r.ac_ppid,
            r.ac_btime,
        ),
        (
            f32::from_bits(r.ac_etime),
            r.ac_utime,
            r.ac_stime,
            r.ac_mem,
            r.ac_io,
            r.ac_rw,
            r.ac_minflt,
            r.ac_majflt,
            r.ac_swaps,
        ),
        r.ac_comm,
    )
}

fn samples() -> Vec<AcctV3Inner> {
    let mut all = Vec::new();
    for k in 0..40u32 {
        let x = k.wrapping_mul(0x9e37_79b9).wrapping_add(0x1234_5678);
        let mut comm = [0u8; 16];
        for (i, c) in comm.iter_mut().enumerate() {
            *c = (x >> (i % 24)) as u8;
        }
        all.push(AcctV3Inner {
            ac_flag: x as u8,
            ac_version: (k % 5) as u8,
            ac_tty: (x >> 3) as u16,
            ac_exitcode: x.rotate_left(5),
            ac_uid: x.rotate_left(9),
            ac_gid: x.rotate_left(13),
            ac_pid: x.rotate_left(17),
            ac_ppid: x.rotate_left(21),
            ac_btime: x.rotate_left(25),
            ac_etime: (k as f32 * 1.25 - 7.5).to_bits(),
            ac_utime: (x >> 1) as u16,
            ac_stime: (x >> 2) as u16,
            ac_mem: (x >> 4) as u16,
            ac_io: (x >> 5) as u16,
            ac_rw: (x >> 6) as u16,
            ac_minflt: (x >> 7) as u16,
            ac_majflt: (x >> 8) as u16,
            ac_swaps: (x >> 9) as u16,
            ac_comm: comm,
        });
    }
    all
}

#[test]
fn encode_agrees_with_bincode() {
    for r in samples() {
        let expected = bincode::serialize(&fields_of(&r)).unwrap();
        assert_eq!(expected.len(), 64);
        assert_eq!(r.to_bytes(), expected);
    }
}

#[test]
fn decode_agrees_with_bincode() {
    for r in samples() {
        let bytes = bincode::serialize(&fields_of(&r)).unwrap();
        let decoded = AcctV3Inner::load_from_slice(&bytes);
        assert_eq!(decoded, r);
        let fields: Fields = bincode::deserialize(&r.to_bytes()).unwrap();
        assert_eq!(fields.0, fields_of(&decoded).0);
        assert_eq!(fields.1 .0.to_bits(), decoded.ac_etime);
        assert_eq!(fields.2, decoded.ac_comm);
    }
}

#[test]
fn elapsed_time_keeps_the_bits_of_the_float() {
    let mut r = samples()[0];
    for value in [0.0f32, -0.0, 1.0, 3.5e8, f32::INFINITY, f32::MIN_POSITIVE] {
        r.ac_etime = value.to_bits();
        let bytes = r.to_bytes();
        assert_eq!(&bytes[28..32], &value.to_le_bytes());
        let back = AcctV3Inner::load_from_slice(&bytes);
        assert_eq!(f32::from_bits(back.ac_etime).to_bits(), value.to_bits());
    }
    r.ac_etime = f32::NAN.to_bits() | 1;
    assert_eq!(AcctV3Inner::load_from_slice(&r.to_bytes()).ac_etime, f32::NAN.to_bits() | 1);
}
