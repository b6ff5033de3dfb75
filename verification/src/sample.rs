//! A small worked record used to pin down the codec's composition rules:
//! a little-endian outer record holding a big-endian sub-record with a
//! packed bit-field, a fixed array, and plain integers.  Its layout laws
//! (byte length by summation, and an exact encoding) are stated here.

use crate::codec::{
    lemma_seq_bytes_injective, lemma_seq_bytes_len, lemma_spliced_append, read_array, seq_bytes,
    spliced, wf_seq, write_items, ByteStruct, ByteStructImpl,
};
use vstd::prelude::*;

verus! {

#[derive(Clone, Copy, Debug, PartialEq, Eq, Default)]
pub struct TestBitfield {
    pub x: u16,
    pub y: u16,
    pub z: u16,
}

impl TestBitfield {
    /// The fields packed into `raw`, first field in the lowest bits.
    pub open spec fn spec_from_raw(raw: u16) -> TestBitfield {
        TestBitfield {
            x: raw & 0xf,
            y: (raw >> 4) & 0xff,
            z: (raw >> 12) & 0xf,
        }
    }

    /// The raw value holding the fields, first field in the lowest bits.
    pub open spec fn spec_to_raw(self) -> u16 {
        self.x | (self.y << 4) | (self.z << 12)
    }

    pub exec fn from_raw(raw: u16) -> (r: TestBitfield)
        ensures
            r == TestBitfield::spec_from_raw(raw),
    {
        TestBitfield {
            x: raw & 0xf,
            y: (raw >> 4) & 0xff,
            z: (raw >> 12) & 0xf,
        }
    }

    pub exec fn to_raw(&self) -> (r: u16)
        ensures
            r == self.spec_to_raw(),
    {
        self.x | (self.y << 4) | (self.z << 12)
    }

    /// Unpacking any raw value and packing the fields again gives the
    /// raw value back, and the unpacked fields each fit their width.
    pub proof fn lemma_raw_round_trip(raw: u16)
        ensures
            TestBitfield::spec_from_raw(raw).wf(),
            TestBitfield::spec_from_raw(raw).spec_to_raw() == raw,
    {
        assert(((raw & 0xf) | (((raw >> 4) & 0xff) << 4) | (((raw >> 12) & 0xf) << 12)) == raw && raw & 0xf < 0x10 && (raw >> 4) & 0xff < 0x100 && (raw >> 12) & 0xf < 0x10) by (bit_vector);
    }

    /// Packing well-formed fields and unpacking them returns each field.
    pub proof fn lemma_field_round_trip(v: TestBitfield)
        requires
            v.wf(),
        ensures
            TestBitfield::spec_from_raw(v.spec_to_raw()) == v,
    {
        let f_x = v.x;
        let f_y = v.y;
        let f_z = v.z;
        assert((f_x | (f_y << 4) | (f_z << 12)) & 0xf == f_x && ((f_x | (f_y << 4) | (f_z << 12)) >> 4) & 0xff == f_y && ((f_x | (f_y << 4) | (f_z << 12)) >> 12) & 0xf == f_z) by (bit_vector)
            requires
                f_x < 0x10,
                f_y < 0x100,
                f_z < 0x10,
        ;
    }
}

impl ByteStructImpl for TestBitfield {
    open spec fn spec_byte_len() -> nat {
        2
    }

    open spec fn wf(&self) -> bool {
        self.x < 0x10 && self.y < 0x100 && self.z < 0x10
    }

    open spec fn le_bytes(&self) -> Seq<u8> {
        self.spec_to_raw().le_bytes()
    }

    open spec fn be_bytes(&self) -> Seq<u8> {
        self.spec_to_raw().be_bytes()
    }

    proof fn lemma_len(&self) {
    }

    proof fn lemma_injective(a: Self, b: Self) {
        u16::lemma_injective(a.spec_to_raw(), b.spec_to_raw());
        TestBitfield::lemma_field_round_trip(a);
        TestBitfield::lemma_field_round_trip(b);
    }

    exec fn byte_len() -> (n: usize) {
        2
    }

    exec fn write_le_bytes(&self, bytes: &mut [u8], pos: usize) {
        self.to_raw().write_le_bytes(bytes, pos);
    }

    exec fn read_le_bytes(bytes: &[u8], pos: usize) -> (r: Self) {
        let raw = u16::read_le_bytes(bytes, pos);
        proof {
            TestBitfield::lemma_raw_round_trip(raw);
        }
        TestBitfield::from_raw(raw)
    }

    exec fn write_be_bytes(&self, bytes: &mut [u8], pos: usize) {
        self.to_raw().write_be_bytes(bytes, pos);
    }

    exec fn read_be_bytes(bytes: &[u8], pos: usize) -> (r: Self) {
        let raw = u16::read_be_bytes(bytes, pos);
        proof {
            TestBitfield::lemma_raw_round_trip(raw);
        }
        TestBitfield::from_raw(raw)
    }
}

/// A big-endian sub-record: a plain integer followed by a bit-field.
#[derive(Clone, Copy, Debug, PartialEq)]
pub struct TestSubStruct {
    pub b: u16,
    pub c: TestBitfield,
}

impl ByteStructImpl for TestSubStruct {
    open spec fn spec_byte_len() -> nat {
        4
    }

    open spec fn wf(&self) -> bool {
        self.b.wf() && self.c.wf()
    }

    open spec fn le_bytes(&self) -> Seq<u8> {
        self.b.be_bytes() + self.c.be_bytes()
    }

    open spec fn be_bytes(&self) -> Seq<u8> {
        self.le_bytes()
    }

    proof fn lemma_len(&self) {
        self.b.lemma_len();
        self.c.lemma_len();
    }

    proof fn lemma_injective(a: Self, b: Self) {
        a.b.lemma_len();
        a.c.lemma_len();
        b.b.lemma_len();
        b.c.lemma_len();
        if a.le_bytes() == b.le_bytes() {
            let sa = a.le_bytes();
            let sb = b.le_bytes();
            assert(a.c.be_bytes() =~= sa.subrange(2, 4));
            assert(b.c.be_bytes() =~= sb.subrange(2, 4));
            assert(a.b.be_bytes() =~= sa.subrange(0, 2));
            assert(b.b.be_bytes() =~= sb.subrange(0, 2));
            assert(a.b.be_bytes() =~= sa.subrange(0, 2));
            assert(b.b.be_bytes() =~= sb.subrange(0, 2));
            u16::lemma_injective(a.b, b.b);
            TestBitfield::lemma_injective(a.c, b.c);
            assert(a == b);
        }
    }

    exec fn byte_len() -> (n: usize) {
        4
    }

    exec fn write_le_bytes(&self, bytes: &mut [u8], pos: usize) {
        let buf_len = bytes.len();
        proof {
            assert(buf_len == bytes@.len());
            self.b.lemma_len();
            self.c.lemma_len();
        }
        self.b.write_be_bytes(bytes, pos);
        self.c.write_be_bytes(bytes, pos + 2);
        proof {
            lemma_spliced_append(old(bytes)@, pos as int, self.b.be_bytes(), self.c.be_bytes());
        }
    }

    exec fn read_le_bytes(bytes: &[u8], pos: usize) -> (r: Self) {
        let buf_len = bytes.len();
        proof {
            assert(buf_len == bytes@.len());
        }
        let b = u16::read_be_bytes(bytes, pos);
        let c = TestBitfield::read_be_bytes(bytes, pos + 2);
        let r = TestSubStruct { b, c };
        proof {
            assert(r.b.be_bytes() + r.c.be_bytes() =~= bytes@.subrange(pos as int, pos + 4));
        }
        r
    }

    exec fn write_be_bytes(&self, bytes: &mut [u8], pos: usize) {
        self.write_le_bytes(bytes, pos);
    }

    exec fn read_be_bytes(bytes: &[u8], pos: usize) -> (r: Self) {
        Self::read_le_bytes(bytes, pos)
    }
}

impl ByteStruct for TestSubStruct {
}

/// A little-endian record embedding the big-endian sub-record, a
/// three-element array and a 32-bit tail.
#[derive(Clone, Copy, Debug, PartialEq)]
pub struct TestStruct {
    pub a: u8,
    pub s: TestSubStruct,
    pub d: [u16; 3],
    pub e: u32,
}

impl ByteStructImpl for TestStruct {
    open spec fn spec_byte_len() -> nat {
        0xf
    }

    open spec fn wf(&self) -> bool {
        self.a.wf() && self.s.wf() && wf_seq(self.d@) && self.e.wf()
    }

    open spec fn le_bytes(&self) -> Seq<u8> {
        self.a.le_bytes() + self.s.le_bytes() + seq_bytes(self.d@, false) + self.e.le_bytes()
    }

    open spec fn be_bytes(&self) -> Seq<u8> {
        self.le_bytes()
    }

    proof fn lemma_len(&self) {
        self.a.lemma_len();
        self.s.lemma_len();
        lemma_seq_bytes_len(self.d@, false);
        self.e.lemma_len();
    }

    proof fn lemma_injective(a: Self, b: Self) {
        a.a.lemma_len();
        a.s.lemma_len();
        lemma_seq_bytes_len(a.d@, false);
        a.e.lemma_len();
        b.a.lemma_len();
        b.s.lemma_len();
        lemma_seq_bytes_len(b.d@, false);
        b.e.lemma_len();
        if a.le_bytes() == b.le_bytes() {
            let sa = a.le_bytes();
            let sb = b.le_bytes();
            assert(a.e.le_bytes() =~= sa.subrange(0xb, 0xf));
            assert(b.e.le_bytes() =~= sb.subrange(0xb, 0xf));
            assert(a.a.le_bytes() + a.s.le_bytes() + seq_bytes(a.d@, false) =~= sa.subrange(0, 0xb));
            assert(b.a.le_bytes() + b.s.le_bytes() + seq_bytes(b.d@, false) =~= sb.subrange(0, 0xb));
            assert(seq_bytes(a.d@, false) =~= sa.subrange(5, 0xb));
            assert(seq_bytes(b.d@, false) =~= sb.subrange(5, 0xb));
            assert(a.a.le_bytes() + a.s.le_bytes() =~= sa.subrange(0, 5));
            assert(b.a.le_bytes() + b.s.le_bytes() =~= sb.subrange(0, 5));
            assert(a.s.le_bytes() =~= sa.subrange(1, 5));
            assert(b.s.le_bytes() =~= sb.subrange(1, 5));
            assert(a.a.le_bytes() =~= sa.subrange(0, 1));
            assert(b.a.le_bytes() =~= sb.subrange(0, 1));
            assert(a.a.le_bytes() =~= sa.subrange(0, 1));
            assert(b.a.le_bytes() =~= sb.subrange(0, 1));
            u8::lemma_injective(a.a, b.a);
            TestSubStruct::lemma_injective(a.s, b.s);
            lemma_seq_bytes_injective(a.d@, b.d@, false);
            assert(a.d =~= b.d);
            u32::lemma_injective(a.e, b.e);
            assert(a == b);
        }
    }

    exec fn byte_len() -> (n: usize) {
        0xf
    }

    exec fn write_le_bytes(&self, bytes: &mut [u8], pos: usize) {
        let buf_len = bytes.len();
        proof {
            assert(buf_len == bytes@.len());
            self.a.lemma_len();
            self.s.lemma_len();
            lemma_seq_bytes_len(self.d@, false);
            self.e.lemma_len();
        }
        self.a.write_le_bytes(bytes, pos);
        self.s.write_le_bytes(bytes, pos + 1);
        proof {
            lemma_spliced_append(old(bytes)@, pos as int, self.a.le_bytes(), self.s.le_bytes());
        }
        write_items(self.d.as_slice(), bytes, pos + 5, false);
        proof {
            lemma_spliced_append(old(bytes)@, pos as int, self.a.le_bytes() + self.s.le_bytes(), seq_bytes(self.d@, false));
        }
        self.e.write_le_bytes(bytes, pos + 0xb);
        proof {
            lemma_spliced_append(old(bytes)@, pos as int, self.a.le_bytes() + self.s.le_bytes() + seq_bytes(self.d@, false), self.e.le_bytes());
        }
    }

    exec fn read_le_bytes(bytes: &[u8], pos: usize) -> (r: Self) {
        let buf_len = bytes.len();
        proof {
            assert(buf_len == bytes@.len());
        }
        let a = u8::read_le_bytes(bytes, pos);
        let s = TestSubStruct::read_le_bytes(bytes, pos + 1);
        let d: [u16; 3] = read_array(bytes, pos + 5, false);
        let e = u32::read_le_bytes(bytes, pos + 0xb);
        let r = TestStruct { a, s, d, e };
        proof {
            assert(r.a.le_bytes() + r.s.le_bytes() =~= bytes@.subrange(pos as int, pos + 5));
            assert(r.a.le_bytes() + r.s.le_bytes() + seq_bytes(r.d@, false) =~= bytes@.subrange(pos as int, pos + 0xb));
            assert(r.a.le_bytes() + r.s.le_bytes() + seq_bytes(r.d@, false) + r.e.le_bytes() =~= bytes@.subrange(pos as int, pos + 0xf));
        }
        r
    }

    exec fn write_be_bytes(&self, bytes: &mut [u8], pos: usize) {
        self.write_le_bytes(bytes, pos);
    }

    exec fn read_be_bytes(bytes: &[u8], pos: usize) -> (r: Self) {
        Self::read_le_bytes(bytes, pos)
    }
}

impl ByteStruct for TestStruct {
}

/// Length additivity: the worked record's byte length is the sum of its
/// fields' byte lengths, fifteen bytes in all, and every well-formed value
/// encodes to exactly that many bytes.
pub proof fn lemma_length_additive(v: TestStruct)
    requires
        v.wf(),
    ensures
        TestStruct::spec_byte_len() == u8::spec_byte_len() + TestSubStruct::spec_byte_len() + 3
            * u16::spec_byte_len() + u32::spec_byte_len(),
        TestStruct::spec_byte_len() == 15,
        v.le_bytes().len() == 15,
        v.be_bytes().len() == 15,
{
    v.lemma_len();
}

} // verus!
