use blob_serializer::{FixedStr, Serializable, SerializerState, VarStr};

fn le(x: u64) -> Vec<u8> {
    x.to_le_bytes().to_vec()
}

fn distinct(n: usize, start: u8) -> Vec<u8> {
    (0..n).map(|i| start.wrapping_add(i as u8)).collect()
}

struct FailingSink;

impl std::io::Write for FailingSink {
    fn write(&mut self, _buf: &[u8]) -> std::io::Result<usize> {
        Err(std::io::Error::new(std::io::ErrorKind::Other, "sink closed"))
    }

    fn flush(&mut self) -> std::io::Result<()> {
        Ok(())
    }
}

#[test]
fn round_trip_inline_then_reference() {
    let b1 = vec![0x01u8, 0x02];
    let b2 = distinct(20, 0x30);
    let mut s = SerializerState::new(Vec::new());
    s.add_var_blob(&b1).unwrap();
    s.add_var_blob(&b2).unwrap();
    s.flush_blobs().unwrap();
    let out = s.into_inner();

    let mut expected = vec![0x82u8, 0x01, 0x02];
    expected.extend(std::iter::repeat(0u8).take(13));
    expected.extend(le(0));
    expected.extend(le(20));
    expected.extend(le(20));
    expected.extend(&b2);
    assert_eq!(out, expected);
    assert_eq!(out.len(), 16 + 16 + 8 + 20);
}

#[test]
fn boundary_fifteen_inline_sixteen_reference() {
    let b15 = distinct(15, 1);
    let mut s = SerializerState::new(Vec::new());
    s.add_var_blob(&b15).unwrap();
    assert_eq!(s.blob_area_length(), 0);
    let out = s.into_inner();
    assert_eq!(out.len(), 16);
    assert_eq!(out[0], 0x8f);
    assert_eq!(&out[1..16], &b15[..]);

    let b16 = distinct(16, 1);
    let mut s = SerializerState::new(Vec::new());
    s.add_var_blob(&b16).unwrap();
    assert_eq!(s.blob_area_length(), 16);
    let out = s.into_inner();
    assert_eq!(out.len(), 16);
    assert_eq!(&out[0..8], &le(0)[..]);
    assert_eq!(&out[8..16], &le(16)[..]);
}

#[test]
fn short_blobs_frame_inline() {
    for n in 0..16usize {
        let b = distinct(n, 0xa0);
        let mut s = SerializerState::new(Vec::new());
        s.add_var_blob(&b).unwrap();
        let out = s.into_inner();
        assert_eq!(out.len(), 16);
        assert_eq!(out[0] & 0x80, 0x80);
        assert_eq!((out[0] & 0x7f) as usize, n);
        assert_eq!(&out[1..1 + n], &b[..]);
        assert!(out[1 + n..].iter().all(|&z| z == 0));
    }
}

#[test]
fn empty_blob_is_inline() {
    let mut s = SerializerState::new(Vec::new());
    s.add_var_blob(&[]).unwrap();
    let out = s.into_inner();
    assert_eq!(out, {
        let mut v = vec![0x80u8];
        v.extend(std::iter::repeat(0u8).take(15));
        v
    });
}

#[test]
fn long_blob_resolves_in_trailer() {
    let long = distinct(40, 9);
    let mut s = SerializerState::new(Vec::new());
    s.add_var_blob(&distinct(17, 100)).unwrap();
    s.add_fixed_blob(&[5, 6, 7]).unwrap();
    s.add_var_blob(&long).unwrap();
    s.add_var_blob(&distinct(3, 50)).unwrap();
    s.flush_blobs().unwrap();
    let out = s.into_inner();

    let frame = &out[16 + 3..16 + 3 + 16];
    let offset = u64::from_le_bytes(frame[0..8].try_into().unwrap()) as usize;
    let len = u64::from_le_bytes(frame[8..16].try_into().unwrap()) as usize;
    assert_eq!(offset, 17);
    assert_eq!(len, 40);

    let trailer = &out[16 + 3 + 16 + 16..];
    let total = u64::from_le_bytes(trailer[0..8].try_into().unwrap());
    assert_eq!(total, 57);
    let area = &trailer[8..];
    assert_eq!(area.len(), 57);
    assert_eq!(&area[offset..offset + len], &long[..]);
}

#[test]
fn blob_area_length_sums_reference_blobs() {
    let lens = [0usize, 16, 3, 15, 100, 20, 1];
    let mut s = SerializerState::new(Vec::new());
    let mut sum = 0u64;
    for (i, &n) in lens.iter().enumerate() {
        s.add_var_blob(&distinct(n, i as u8)).unwrap();
        if n >= 16 {
            sum += n as u64;
        }
        assert_eq!(s.blob_area_length(), sum);
    }
    assert_eq!(sum, 136);
}

#[test]
fn reference_offsets_increase_in_order() {
    let blobs = vec![distinct(16, 0), distinct(33, 40), distinct(20, 90)];
    let mut s = SerializerState::new(Vec::new());
    for b in &blobs {
        s.add_var_blob(b).unwrap();
    }
    s.flush_blobs().unwrap();
    let out = s.into_inner();
    let area = &out[16 * 3 + 8..];
    let mut prev_end = 0usize;
    let mut prev_offset: Option<usize> = None;
    for (k, b) in blobs.iter().enumerate() {
        let frame = &out[16 * k..16 * (k + 1)];
        let offset = u64::from_le_bytes(frame[0..8].try_into().unwrap()) as usize;
        let len = u64::from_le_bytes(frame[8..16].try_into().unwrap()) as usize;
        if let Some(p) = prev_offset {
            assert!(offset > p);
        }
        assert!(offset >= prev_end);
        assert_eq!(&area[offset..offset + len], &b[..]);
        prev_end = offset + len;
        prev_offset = Some(offset);
    }
    assert_eq!(prev_end, 69);
}

#[test]
fn flush_finalizes_session() {
    let mut s = SerializerState::new(Vec::new());
    assert!(!s.is_finalized());
    s.flush_blobs().unwrap();
    assert!(s.is_finalized());
    assert_eq!(s.into_inner(), le(0));
}

#[test]
fn fixed_blob_is_verbatim() {
    let mut s = SerializerState::new(Vec::new());
    s.add_fixed_blob(&[9, 8, 7]).unwrap();
    s.add_fixed_blob(&[]).unwrap();
    s.add_fixed_blob(&[1]).unwrap();
    assert_eq!(s.blob_area_length(), 0);
    assert_eq!(s.into_inner(), vec![9, 8, 7, 1]);
}

#[test]
fn scalars_are_little_endian() {
    let mut s = SerializerState::new(Vec::new());
    0xabu8.write_serialized(&mut s).unwrap();
    0x1234u16.write_serialized(&mut s).unwrap();
    0x0102_0304u32.write_serialized(&mut s).unwrap();
    0x0102_0304_0506_0708u64.write_serialized(&mut s).unwrap();
    7usize.write_serialized(&mut s).unwrap();
    assert_eq!(
        s.into_inner(),
        vec![
            0xab, 0x34, 0x12, 0x04, 0x03, 0x02, 0x01, 0x08, 0x07, 0x06, 0x05, 0x04, 0x03, 0x02,
            0x01, 7, 0, 0, 0, 0, 0, 0, 0
        ]
    );
}

#[test]
fn signed_scalars_are_twos_complement() {
    let mut s = SerializerState::new(Vec::new());
    (-1i8).write_serialized(&mut s).unwrap();
    (-2i16).write_serialized(&mut s).unwrap();
    (-3i32).write_serialized(&mut s).unwrap();
    (-4i64).write_serialized(&mut s).unwrap();
    (-5isize).write_serialized(&mut s).unwrap();
    let mut expected = vec![0xffu8, 0xfe, 0xff, 0xfd, 0xff, 0xff, 0xff];
    expected.extend((-4i64).to_le_bytes());
    expected.extend((-5i64).to_le_bytes());
    assert_eq!(s.into_inner(), expected);
}

#[test]
fn booleans_are_one_byte() {
    let mut s = SerializerState::new(Vec::new());
    true.write_serialized(&mut s).unwrap();
    false.write_serialized(&mut s).unwrap();
    assert_eq!(s.into_inner(), vec![1u8, 0u8]);
}

#[test]
fn string_wrappers_pick_the_blob_operation() {
    let mut s = SerializerState::new(Vec::new());
    FixedStr("abc").write_serialized(&mut s).unwrap();
    VarStr("hi").write_serialized(&mut s).unwrap();
    VarStr("a string of more than sixteen bytes").write_serialized(&mut s).unwrap();
    s.flush_blobs().unwrap();
    let out = s.into_inner();
    let mut expected = b"abc".to_vec();
    expected.extend([0x82u8, b'h', b'i']);
    expected.extend(std::iter::repeat(0u8).take(13));
    expected.extend(le(0));
    expected.extend(le(35));
    expected.extend(le(35));
    expected.extend(b"a string of more than sixteen bytes");
    assert_eq!(out, expected);
}

#[test]
fn sink_failure_propagates() {
    let mut s = SerializerState::new(FailingSink);
    assert!(s.add_fixed_blob(&[1, 2]).is_err());
    assert!(s.add_var_blob(&[1, 2]).is_err());
    assert_eq!(s.blob_area_length(), 0);
    assert!(7u32.write_serialized(&mut s).is_err());
}

#[test]
fn sink_failure_keeps_deferred_blob() {
    let mut s = SerializerState::new(FailingSink);
    assert!(s.add_var_blob(&distinct(18, 0)).is_err());
    assert_eq!(s.blob_area_length(), 18);
    assert!(s.flush_blobs().is_err());
    assert!(s.is_finalized());
}
