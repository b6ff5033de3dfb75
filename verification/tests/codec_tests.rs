use citrii::codec::{ByteStruct, ByteStructImpl};
use citrii::sample::{TestBitfield, TestStruct, TestSubStruct};

#[test]
fn it_works() {
    assert_eq!(TestStruct::byte_len(), 15);
    let mut data = [0, 0, 0, 0, 0, 0, 0, 0, 0, 0, 0, 0, 0, 0, 0];
    let mut s = TestStruct {
        a: 0x12,
        s: TestSubStruct {
            b: 0x3456,
            c: TestBitfield { x: 0xf, y: 0x8f, z: 0x7 },
        },
        d: [0x1020, 0x3040, 0x5060],
        e: 0x9abcdef0,
    };
    s.write_bytes(&mut data[..], 0);
    assert_eq!(
        data,
        [0x12, 0x34, 0x56, 0x78, 0xff, 0x20, 0x10, 0x40, 0x30, 0x60, 0x50, 0xf0, 0xde, 0xbc, 0x9a]
    );

    data = [
        0x00, 0x11, 0x22, 0x33, 0x44, 0x44, 0x55, 0x66, 0x77, 0x88, 0x99, 0xaa, 0xbb, 0xcc, 0xdd,
    ];
    s = TestStruct::read_bytes(&data[..], 0);
    assert_eq!(
        s,
        TestStruct {
            a: 0x00,
            s: TestSubStruct {
                b: 0x1122,
                c: TestBitfield { x: 0x4, y: 0x34, z: 0x3 },
            },
            d: [0x5544, 0x7766, 0x9988],
            e: 0xddccbbaa,
        }
    )
}

#[test]
fn primitive_round_trips() {
    let mut buf = [0u8; 8];
    0x1234u16.write_le_bytes(&mut buf[..], 0);
    assert_eq!(&buf[0..2], &[0x34, 0x12]);
    assert_eq!(u16::read_le_bytes(&buf[..], 0), 0x1234);
    0x1234u16.write_be_bytes(&mut buf[..], 0);
    assert_eq!(&buf[0..2], &[0x12, 0x34]);
    assert_eq!(u16::read_be_bytes(&buf[..], 0), 0x1234);

    0x89abcdefu32.write_le_bytes(&mut buf[..], 0);
    assert_eq!(&buf[0..4], &[0xef, 0xcd, 0xab, 0x89]);
    assert_eq!(u32::read_le_bytes(&buf[..], 0), 0x89abcdef);

    (-2i16).write_le_bytes(&mut buf[..], 0);
    assert_eq!(&buf[0..2], &[0xfe, 0xff]);
    assert_eq!(i16::read_le_bytes(&buf[..], 0), -2);

    (-2i32).write_be_bytes(&mut buf[..], 0);
    assert_eq!(&buf[0..4], &[0xff, 0xff, 0xff, 0xfe]);
    assert_eq!(i32::read_be_bytes(&buf[..], 0), -2);

    0x0123456789abcdefu64.write_le_bytes(&mut buf[..], 0);
    assert_eq!(buf, [0xef, 0xcd, 0xab, 0x89, 0x67, 0x45, 0x23, 0x01]);
    assert_eq!(u64::read_le_bytes(&buf[..], 0), 0x0123456789abcdef);
    assert_eq!(u64::read_be_bytes(&buf[..], 0), 0xefcdab8967452301);
}

#[test]
fn bitfield_round_trips() {
    let f = TestBitfield::from_raw(0xdead);
    assert_eq!(f, TestBitfield { x: 0xd, y: 0xea, z: 0xd });
    assert_eq!(f.to_raw(), 0xdead);
    let g = TestBitfield { x: 1, y: 2, z: 3 };
    assert_eq!(TestBitfield::from_raw(g.to_raw()), g);
}

#[test]
fn mixed_endian_composition() {
    // The big-endian sub-record keeps its own order inside the
    // little-endian outer record.
    let v = TestSubStruct {
        b: 0x0102,
        c: TestBitfield { x: 0, y: 0, z: 0 },
    };
    let mut buf = [0u8; 4];
    v.write_bytes(&mut buf[..], 0);
    assert_eq!(buf, [0x01, 0x02, 0x00, 0x00]);
}
