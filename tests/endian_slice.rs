use endian_reader::endianity::NativeEndian;
use endian_reader::{BigEndian, EndianSlice, Error, LittleEndian, RunTimeEndian};

#[test]
fn test_endian_slice_split_at() {
    let endian = NativeEndian;
    let slice = &[1, 2, 3, 4, 5, 6, 7, 8, 9, 0];
    let eb = EndianSlice::new(slice, endian);
    assert_eq!(
        eb.split_at(3),
        (
            EndianSlice::new(&slice[..3], endian),
            EndianSlice::new(&slice[3..], endian)
        )
    );
}

#[test]
#[should_panic]
fn test_endian_slice_split_at_out_of_bounds() {
    let slice = &[1, 2, 3, 4, 5, 6, 7, 8, 9, 0];
    let eb = EndianSlice::new(slice, NativeEndian);
    eb.split_at(30);
}

#[test]
fn split_at_every_index_covers_the_view() {
    let slice = &[10u8, 20, 30, 40];
    let v = EndianSlice::new(slice, BigEndian);
    for i in 0..=slice.len() {
        let (p, s) = v.split_at(i);
        assert_eq!(p.len() + s.len(), v.len());
        assert_eq!(p.slice(), &slice[..i]);
        assert_eq!(s.slice(), &slice[i..]);
        assert_eq!(p.endian(), BigEndian);
        assert_eq!(s.endian(), BigEndian);
    }
}

#[test]
fn range_methods_pick_the_bytes() {
    let slice = &[0x01u8, 0x02, 0x03, 0x04];
    let v = EndianSlice::new(slice, LittleEndian);
    assert_eq!(v.range(1..3), EndianSlice::new(&slice[1..3], LittleEndian));
    assert_eq!(v.range_from(2), EndianSlice::new(&slice[2..], LittleEndian));
    assert_eq!(v.range_to(3), EndianSlice::new(&slice[..3], LittleEndian));
}

#[test]
fn buf_and_slice_agree() {
    let slice = &[7u8, 8, 9];
    let v = EndianSlice::new(slice, LittleEndian).range_from(1);
    assert_eq!(v.buf(), &[8u8, 9][..]);
    assert_eq!(v.slice(), &[8u8, 9][..]);
}

#[test]
fn equality_is_by_content_not_position() {
    let a = [5u8, 6, 7, 5, 6];
    let b = [5u8, 6];
    let va = EndianSlice::new(&a[..], BigEndian).range(3..5);
    let vb = EndianSlice::new(&b[..], BigEndian);
    assert_eq!(va, vb);
    let r1 = EndianSlice::new(&b[..], RunTimeEndian::Big);
    let r2 = EndianSlice::new(&b[..], RunTimeEndian::Little);
    assert_ne!(r1, r2);
    assert_ne!(EndianSlice::new(&a[..2], BigEndian), EndianSlice::new(&a[1..3], BigEndian));
}

#[test]
fn skip_then_split_zero_keeps_length() {
    let slice = &[1u8, 2, 3, 4, 5, 6];
    let mut v = EndianSlice::new(slice, LittleEndian);
    assert_eq!(v.skip(2), Ok(()));
    assert_eq!(v.len(), 4);
    let taken = v.split(0).unwrap();
    assert!(taken.is_empty());
    assert_eq!(v.len(), 4);
    let before = v;
    let all = v.split(v.len()).unwrap();
    assert!(v.is_empty());
    assert_eq!(all, before);
    assert_eq!(all.slice(), &[3u8, 4, 5, 6][..]);
}

#[test]
fn skip_and_split_past_the_end_fail() {
    let slice = &[1u8, 2, 3];
    let mut v = EndianSlice::new(slice, LittleEndian);
    assert_eq!(v.skip(4), Err(Error::UnexpectedEof));
    assert_eq!(v.len(), 3);
    assert_eq!(v.split(4), Err(Error::UnexpectedEof));
    assert_eq!(v.len(), 3);
    assert_eq!(v.truncate(4), Err(Error::UnexpectedEof));
    assert_eq!(v.slice(), &[1u8, 2, 3][..]);
}

#[test]
fn truncate_keeps_the_front() {
    let slice = &[1u8, 2, 3, 4];
    let mut v = EndianSlice::new(slice, LittleEndian);
    assert_eq!(v.truncate(2), Ok(()));
    assert_eq!(v.slice(), &[1u8, 2][..]);
    assert_eq!(v.truncate(2), Ok(()));
    assert_eq!(v.len(), 2);
}

#[test]
fn empty_drops_everything() {
    let slice = &[1u8, 2, 3];
    let mut v = EndianSlice::new(slice, LittleEndian);
    v.empty();
    assert!(v.is_empty());
    assert_eq!(v.len(), 0);
    assert_eq!(v.read_u8(), Err(Error::UnexpectedEof));
    assert_eq!(v.split(0).map(|t| t.len()), Ok(0));
}

#[test]
fn read_u32_on_three_bytes_fails_without_consuming() {
    let slice = &[1u8, 2, 3];
    let mut v = EndianSlice::new(slice, LittleEndian);
    assert_eq!(v.read_u32(), Err(Error::UnexpectedEof));
    assert_eq!(v.len(), 3);
    assert_eq!(v.read_u64(), Err(Error::UnexpectedEof));
    assert_eq!(v.read_i32(), Err(Error::UnexpectedEof));
    assert_eq!(v.read_i64(), Err(Error::UnexpectedEof));
    assert_eq!(v.len(), 3);
}

#[test]
fn fixed_width_reads_little_endian() {
    let slice = &[
        0x01u8, 0x02, 0x01, 0x02, 0x03, 0x04, 0x01, 0x02, 0x03, 0x04, 0x05, 0x06, 0x07, 0x08,
    ];
    let mut v = EndianSlice::new(slice, LittleEndian);
    assert_eq!(v.read_u16(), Ok(0x0201));
    assert_eq!(v.read_u32(), Ok(0x0403_0201));
    assert_eq!(v.read_u64(), Ok(0x0807_0605_0403_0201));
    assert!(v.is_empty());
}

#[test]
fn fixed_width_reads_big_endian() {
    let slice = &[
        0x01u8, 0x02, 0x01, 0x02, 0x03, 0x04, 0x01, 0x02, 0x03, 0x04, 0x05, 0x06, 0x07, 0x08,
    ];
    let mut v = EndianSlice::new(slice, BigEndian);
    assert_eq!(v.read_u16(), Ok(0x0102));
    assert_eq!(v.read_u32(), Ok(0x0102_0304));
    assert_eq!(v.read_u64(), Ok(0x0102_0304_0506_0708));
    assert!(v.is_empty());
}

#[test]
fn signed_reads_are_twos_complement() {
    let slice = &[0xffu8, 0xfe, 0xff, 0xff, 0xff, 0xfd, 0xff, 0xff, 0xff, 0xff, 0xff, 0xff, 0xff, 0x80, 0x80];
    let mut v = EndianSlice::new(slice, BigEndian);
    assert_eq!(v.read_i16(), Ok(-2));
    assert_eq!(v.read_i32(), Ok(-3));
    assert_eq!(v.read_i64(), Ok(-128));
    assert_eq!(v.read_i8(), Ok(-128));
    assert_eq!(v.len(), 0);
}

#[test]
fn single_byte_reads() {
    let slice = &[0x7fu8, 0x81];
    let mut v = EndianSlice::new(slice, LittleEndian);
    assert_eq!(v.read_u8(), Ok(0x7f));
    assert_eq!(v.read_i8(), Ok(-127));
    assert_eq!(v.read_i8(), Err(Error::UnexpectedEof));
}

#[test]
fn read_u8_array_copies_bytes() {
    let slice = &[9u8, 8, 7, 6, 5];
    let mut v = EndianSlice::new(slice, LittleEndian);
    let a: [u8; 3] = v.read_u8_array().unwrap();
    assert_eq!(a, [9, 8, 7]);
    assert_eq!(v.len(), 2);
    let b: Result<[u8; 4], Error> = v.read_u8_array();
    assert_eq!(b, Err(Error::UnexpectedEof));
    assert_eq!(v.len(), 2);
    let z: [u8; 0] = v.read_u8_array().unwrap();
    assert_eq!(z, []);
}

#[test]
fn run_time_order_reads() {
    let slice = &[0x00u8, 0x01];
    let mut big = EndianSlice::new(slice, RunTimeEndian::Big);
    assert_eq!(big.read_u16(), Ok(1));
    let mut little = EndianSlice::new(slice, RunTimeEndian::Little);
    assert_eq!(little.read_u16(), Ok(256));
}

#[test]
fn to_string_accepts_valid_utf8() {
    let slice = &[0x68u8, 0x69];
    let v = EndianSlice::new(slice, LittleEndian);
    assert_eq!(v.to_string(), Ok("hi"));
    assert_eq!(v.len(), 2);
}

#[test]
fn to_string_rejects_invalid_utf8() {
    let slice = &[0xffu8, 0xfe];
    let v = EndianSlice::new(slice, LittleEndian);
    assert_eq!(v.to_string(), Err(Error::BadUtf8));
    let lossy = v.to_string_lossy();
    assert!(lossy.contains('\u{FFFD}'));
    assert_eq!(lossy, "\u{FFFD}\u{FFFD}");
}

#[test]
fn to_string_lossy_keeps_valid_text() {
    let slice = b"hello";
    let v = EndianSlice::new(&slice[..], BigEndian);
    assert_eq!(v.to_string_lossy(), "hello");
    let mixed = &[0x61u8, 0xff, 0x62];
    let w = EndianSlice::new(mixed, BigEndian);
    assert_eq!(w.to_string_lossy(), "a\u{FFFD}b");
}

#[test]
fn to_slice_is_an_owned_copy() {
    let slice = &[1u8, 2, 3, 4];
    let v = EndianSlice::new(slice, LittleEndian).range(1..3);
    assert_eq!(v.to_slice(), vec![2u8, 3]);
}

#[test]
fn offset_from_root() {
    let slice = &[0u8; 10];
    let root = EndianSlice::new(&slice[..], LittleEndian);
    let child = root.range(3..7);
    assert_eq!(child.offset_from(root), 3);
    let grandchild = child.range_from(2);
    assert_eq!(grandchild.offset_from(root), 5);
    assert_eq!(grandchild.offset_from(child), 2);
    let mut cursor = root;
    cursor.skip(4).unwrap();
    let piece = cursor.split(3).unwrap();
    assert_eq!(piece.offset_from(root), 4);
    assert_eq!(cursor.offset_from(root), 7);
}

#[test]
fn find_reports_first_index() {
    let slice = &[1u8, 2, 3, 4, 5];
    let v = EndianSlice::new(slice, LittleEndian);
    assert_eq!(v.find(4), Some(3));
    assert_eq!(v.find(9), None);
    let dup = &[7u8, 1, 7];
    assert_eq!(EndianSlice::new(dup, LittleEndian).find(7), Some(0));
    assert_eq!(EndianSlice::new(&dup[..0], LittleEndian).find(7), None);
}

#[test]
fn converts_into_a_plain_slice() {
    let slice = &[1u8, 2, 3, 4];
    let v = EndianSlice::new(slice, BigEndian).range(1..4);
    let plain: &[u8] = v.into();
    assert_eq!(plain, &[2u8, 3, 4][..]);
}
