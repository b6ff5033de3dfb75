//! Fixed-layout binary record codec.
//!
//! Every codec-conforming type has a constant encoded size, a little-endian
//! and a big-endian encoding, and executable read/write routines that are
//! proved to match those encodings exactly.  Composite records declare their
//! own byte order once; a nested record keeps the order it was declared with,
//! so mixed-endian records compose soundly.

use vstd::prelude::*;

verus! {

broadcast use vstd::array::group_array_axioms;

/// Bytes of `s` with the range starting at `pos` replaced by `mid`.
pub open spec fn spliced(s: Seq<u8>, pos: int, mid: Seq<u8>) -> Seq<u8> {
    s.subrange(0, pos) + mid + s.subrange(pos + mid.len(), s.len() as int)
}

/// Two adjacent splices act as one splice of the concatenation.
pub proof fn lemma_spliced_append(s: Seq<u8>, pos: int, a: Seq<u8>, b: Seq<u8>)
    requires
        0 <= pos,
        pos + a.len() + b.len() <= s.len(),
    ensures
        spliced(spliced(s, pos, a), pos + a.len(), b) == spliced(s, pos, a + b),
{
    assert(spliced(spliced(s, pos, a), pos + a.len(), b) =~= spliced(s, pos, a + b));
}

/// A type with a fixed-size byte encoding in either byte order.
///
/// `le_bytes` and `be_bytes` are the mathematical encodings; the executable
/// methods are proved against them.  A composite record encodes its fields
/// contiguously in declaration order with no padding, and uses its *own*
/// declared byte order for both `le_bytes` and `be_bytes`, which is how a
/// big-endian sub-record keeps its order inside a little-endian parent.
pub trait ByteStructImpl: Sized {
    /// Fixed encoded size of this type, in bytes.
    spec fn spec_byte_len() -> nat;

    /// Well-formedness: every packed field fits its declared bit width.
    spec fn wf(&self) -> bool;

    /// The little-endian encoding of this value.
    spec fn le_bytes(&self) -> Seq<u8>;

    /// The big-endian encoding of this value.
    spec fn be_bytes(&self) -> Seq<u8>;

    /// Both encodings have exactly `spec_byte_len` bytes.
    proof fn lemma_len(&self)
        requires
            self.wf(),
        ensures
            self.le_bytes().len() == Self::spec_byte_len(),
            self.be_bytes().len() == Self::spec_byte_len(),
    ;

    /// Encodings are injective: equal bytes mean equal well-formed values.
    proof fn lemma_injective(a: Self, b: Self)
        requires
            a.wf(),
            b.wf(),
        ensures
            a.le_bytes() == b.le_bytes() ==> a == b,
            a.be_bytes() == b.be_bytes() ==> a == b,
    ;

    exec fn byte_len() -> (n: usize)
        ensures
            n == Self::spec_byte_len(),
    ;

    exec fn write_le_bytes(&self, bytes: &mut [u8], pos: usize)
        requires
            self.wf(),
            pos + Self::spec_byte_len() <= old(bytes)@.len(),
        ensures
            final(bytes)@ == spliced(old(bytes)@, pos as int, self.le_bytes()),
    ;

    exec fn read_le_bytes(bytes: &[u8], pos: usize) -> (r: Self)
        requires
            pos + Self::spec_byte_len() <= bytes@.len(),
        ensures
            r.wf(),
            r.le_bytes() == bytes@.subrange(pos as int, pos + Self::spec_byte_len()),
    ;

    exec fn write_be_bytes(&self, bytes: &mut [u8], pos: usize)
        requires
            self.wf(),
            pos + Self::spec_byte_len() <= old(bytes)@.len(),
        ensures
            final(bytes)@ == spliced(old(bytes)@, pos as int, self.be_bytes()),
    ;

    exec fn read_be_bytes(bytes: &[u8], pos: usize) -> (r: Self)
        requires
            pos + Self::spec_byte_len() <= bytes@.len(),
        ensures
            r.wf(),
            r.be_bytes() == bytes@.subrange(pos as int, pos + Self::spec_byte_len()),
    ;

    exec fn write_le_or_be(&self, bytes: &mut [u8], pos: usize, be: bool)
        requires
            self.wf(),
            pos + Self::spec_byte_len() <= old(bytes)@.len(),
        ensures
            final(bytes)@ == spliced(
                old(bytes)@,
                pos as int,
                if be {
                    self.be_bytes()
                } else {
                    self.le_bytes()
                },
            ),
    {
        if be {
            self.write_be_bytes(bytes, pos)
        } else {
            self.write_le_bytes(bytes, pos)
        }
    }

    exec fn read_le_or_be(bytes: &[u8], pos: usize, be: bool) -> (r: Self)
        requires
            pos + Self::spec_byte_len() <= bytes@.len(),
        ensures
            r.wf(),
            (if be {
                r.be_bytes()
            } else {
                r.le_bytes()
            }) == bytes@.subrange(pos as int, pos + Self::spec_byte_len()),
    {
        if be {
            Self::read_be_bytes(bytes, pos)
        } else {
            Self::read_le_bytes(bytes, pos)
        }
    }
}

/// A composite record with a declared byte order of its own.
///
/// `write_bytes` and `read_bytes` use the record's declared order; for such
/// records `le_bytes` and `be_bytes` coincide, so the default bodies below
/// are correct for every implementing record.
pub trait ByteStruct: ByteStructImpl {
    exec fn write_bytes(&self, bytes: &mut [u8], pos: usize)
        requires
            self.wf(),
            pos + Self::spec_byte_len() <= old(bytes)@.len(),
        ensures
            final(bytes)@ == spliced(old(bytes)@, pos as int, self.le_bytes()),
    {
        self.write_le_bytes(bytes, pos)
    }

    exec fn read_bytes(bytes: &[u8], pos: usize) -> (r: Self)
        requires
            pos + Self::spec_byte_len() <= bytes@.len(),
        ensures
            r.wf(),
            r.le_bytes() == bytes@.subrange(pos as int, pos + Self::spec_byte_len()),
    {
        Self::read_le_bytes(bytes, pos)
    }
}

/// Round trip: a well-formed value decoded back from the encoding of a
/// well-formed value `v` is `v` itself, in either byte order.
pub proof fn lemma_round_trip<T: ByteStructImpl>(v: T, r: T)
    requires
        v.wf(),
        r.wf(),
        r.le_bytes() == v.le_bytes() || r.be_bytes() == v.be_bytes(),
    ensures
        r == v,
{
    T::lemma_injective(r, v);
}

impl ByteStructImpl for u8 {
    open spec fn spec_byte_len() -> nat {
        1
    }

    open spec fn wf(&self) -> bool {
        true
    }

    open spec fn le_bytes(&self) -> Seq<u8> {
        seq![*self]
    }

    open spec fn be_bytes(&self) -> Seq<u8> {
        seq![*self]
    }

    proof fn lemma_len(&self) {
    }

    proof fn lemma_injective(a: Self, b: Self) {
        assert(a.le_bytes()[0] == a && b.le_bytes()[0] == b);
    }

    exec fn byte_len() -> (n: usize) {
        1
    }

    exec fn write_le_bytes(&self, bytes: &mut [u8], pos: usize) {
        bytes[pos] = *self;
        proof {
            assert(final(bytes)@ =~= spliced(old(bytes)@, pos as int, self.le_bytes()));
        }
    }

    exec fn read_le_bytes(bytes: &[u8], pos: usize) -> (r: Self) {
        let r = bytes[pos];
        proof {
            assert(r.le_bytes() =~= bytes@.subrange(pos as int, pos + 1));
        }
        r
    }

    exec fn write_be_bytes(&self, bytes: &mut [u8], pos: usize) {
        bytes[pos] = *self;
        proof {
            assert(final(bytes)@ =~= spliced(old(bytes)@, pos as int, self.be_bytes()));
        }
    }

    exec fn read_be_bytes(bytes: &[u8], pos: usize) -> (r: Self) {
        let r = bytes[pos];
        proof {
            assert(r.be_bytes() =~= bytes@.subrange(pos as int, pos + 1));
        }
        r
    }
}

impl ByteStructImpl for u16 {
    open spec fn spec_byte_len() -> nat {
        2
    }

    open spec fn wf(&self) -> bool {
        true
    }

    open spec fn le_bytes(&self) -> Seq<u8> {
        seq![(*self & 0xff) as u8, ((*self >> 8) & 0xff) as u8]
    }

    open spec fn be_bytes(&self) -> Seq<u8> {
        seq![((*self >> 8) & 0xff) as u8, (*self & 0xff) as u8]
    }

    proof fn lemma_len(&self) {
    }

    proof fn lemma_injective(a: Self, b: Self) {
        assert(a & 0xff < 256 && (a >> 8) & 0xff < 256 && b & 0xff < 256 && (b >> 8) & 0xff < 256)
            by (bit_vector);
        if a.le_bytes() == b.le_bytes() || a.be_bytes() == b.be_bytes() {
            assert((a & 0xff) as u8 == (b & 0xff) as u8 && ((a >> 8) & 0xff) as u8 == ((b >> 8)
                & 0xff) as u8);
            assert((a & 0xff == b & 0xff && (a >> 8) & 0xff == (b >> 8) & 0xff) ==> a == b)
                by (bit_vector);
        }
    }

    exec fn byte_len() -> (n: usize) {
        2
    }

    exec fn write_le_bytes(&self, bytes: &mut [u8], pos: usize) {
        bytes[pos] = (*self & 0xff) as u8;
        bytes[pos + 1] = ((*self >> 8) & 0xff) as u8;
        proof {
            assert(final(bytes)@ =~= spliced(old(bytes)@, pos as int, self.le_bytes()));
        }
    }

    exec fn read_le_bytes(bytes: &[u8], pos: usize) -> (r: Self) {
        let lo = bytes[pos];
        let hi = bytes[pos + 1];
        let r = (lo as u16) | ((hi as u16) << 8);
        proof {
            assert(((lo as u16) | ((hi as u16) << 8)) & 0xff == lo as u16 && (((lo as u16) | ((
            hi as u16) << 8)) >> 8) & 0xff == hi as u16) by (bit_vector);
            assert(r.le_bytes() =~= bytes@.subrange(pos as int, pos + 2));
        }
        r
    }

    exec fn write_be_bytes(&self, bytes: &mut [u8], pos: usize) {
        bytes[pos] = ((*self >> 8) & 0xff) as u8;
        bytes[pos + 1] = (*self & 0xff) as u8;
        proof {
            assert(final(bytes)@ =~= spliced(old(bytes)@, pos as int, self.be_bytes()));
        }
    }

    exec fn read_be_bytes(bytes: &[u8], pos: usize) -> (r: Self) {
        let hi = bytes[pos];
        let lo = bytes[pos + 1];
        let r = (lo as u16) | ((hi as u16) << 8);
        proof {
            assert(((lo as u16) | ((hi as u16) << 8)) & 0xff == lo as u16 && (((lo as u16) | ((
            hi as u16) << 8)) >> 8) & 0xff == hi as u16) by (bit_vector);
            assert(r.be_bytes() =~= bytes@.subrange(pos as int, pos + 2));
        }
        r
    }
}

impl ByteStructImpl for u32 {
    open spec fn spec_byte_len() -> nat {
        4
    }

    open spec fn wf(&self) -> bool {
        true
    }

    open spec fn le_bytes(&self) -> Seq<u8> {
        seq![
            (*self & 0xff) as u8,
            ((*self >> 8) & 0xff) as u8,
            ((*self >> 16) & 0xff) as u8,
            ((*self >> 24) & 0xff) as u8,
        ]
    }

    open spec fn be_bytes(&self) -> Seq<u8> {
        seq![
            ((*self >> 24) & 0xff) as u8,
            ((*self >> 16) & 0xff) as u8,
            ((*self >> 8) & 0xff) as u8,
            (*self & 0xff) as u8,
        ]
    }

    proof fn lemma_len(&self) {
    }

    proof fn lemma_injective(a: Self, b: Self) {
        assert(a & 0xff < 256 && (a >> 8) & 0xff < 256 && (a >> 16) & 0xff < 256 && (a >> 24)
            & 0xff < 256 && b & 0xff < 256 && (b >> 8) & 0xff < 256 && (b >> 16) & 0xff < 256 && (b
            >> 24) & 0xff < 256) by (bit_vector);
        if a.le_bytes() == b.le_bytes() || a.be_bytes() == b.be_bytes() {
            assert((a & 0xff) as u8 == (b & 0xff) as u8 && ((a >> 8) & 0xff) as u8 == ((b >> 8)
                & 0xff) as u8 && ((a >> 16) & 0xff) as u8 == ((b >> 16) & 0xff) as u8 && ((a >> 24)
                & 0xff) as u8 == ((b >> 24) & 0xff) as u8);
            assert((a & 0xff == b & 0xff && (a >> 8) & 0xff == (b >> 8) & 0xff && (a >> 16) & 0xff
                == (b >> 16) & 0xff && (a >> 24) & 0xff == (b >> 24) & 0xff) ==> a == b)
                by (bit_vector);
        }
    }

    exec fn byte_len() -> (n: usize) {
        4
    }

    exec fn write_le_bytes(&self, bytes: &mut [u8], pos: usize) {
        bytes[pos] = (*self & 0xff) as u8;
        bytes[pos + 1] = ((*self >> 8) & 0xff) as u8;
        bytes[pos + 2] = ((*self >> 16) & 0xff) as u8;
        bytes[pos + 3] = ((*self >> 24) & 0xff) as u8;
        proof {
            assert(final(bytes)@ =~= spliced(old(bytes)@, pos as int, self.le_bytes()));
        }
    }

    exec fn read_le_bytes(bytes: &[u8], pos: usize) -> (r: Self) {
        let b0 = bytes[pos];
        let b1 = bytes[pos + 1];
        let b2 = bytes[pos + 2];
        let b3 = bytes[pos + 3];
        let r = (b0 as u32) | ((b1 as u32) << 8) | ((b2 as u32) << 16) | ((b3 as u32) << 24);
        proof {
            let x0 = b0 as u32;
            let x1 = b1 as u32;
            let x2 = b2 as u32;
            let x3 = b3 as u32;
            assert((x0 | (x1 << 8) | (x2 << 16) | (x3 << 24)) & 0xff == x0
                && ((x0 | (x1 << 8) | (x2 << 16) | (x3 << 24)) >> 8) & 0xff == x1
                && ((x0 | (x1 << 8) | (x2 << 16) | (x3 << 24)) >> 16) & 0xff == x2
                && ((x0 | (x1 << 8) | (x2 << 16) | (x3 << 24)) >> 24) & 0xff == x3) by (bit_vector)
                requires
                    x0 < 256 && x1 < 256 && x2 < 256 && x3 < 256;
            assert(r.le_bytes() =~= bytes@.subrange(pos as int, pos + 4));
        }
        r
    }

    exec fn write_be_bytes(&self, bytes: &mut [u8], pos: usize) {
        bytes[pos] = ((*self >> 24) & 0xff) as u8;
        bytes[pos + 1] = ((*self >> 16) & 0xff) as u8;
        bytes[pos + 2] = ((*self >> 8) & 0xff) as u8;
        bytes[pos + 3] = (*self & 0xff) as u8;
        proof {
            assert(final(bytes)@ =~= spliced(old(bytes)@, pos as int, self.be_bytes()));
        }
    }

    exec fn read_be_bytes(bytes: &[u8], pos: usize) -> (r: Self) {
        let b3 = bytes[pos];
        let b2 = bytes[pos + 1];
        let b1 = bytes[pos + 2];
        let b0 = bytes[pos + 3];
        let r = (b0 as u32) | ((b1 as u32) << 8) | ((b2 as u32) << 16) | ((b3 as u32) << 24);
        proof {
            let x0 = b0 as u32;
            let x1 = b1 as u32;
            let x2 = b2 as u32;
            let x3 = b3 as u32;
            assert((x0 | (x1 << 8) | (x2 << 16) | (x3 << 24)) & 0xff == x0
                && ((x0 | (x1 << 8) | (x2 << 16) | (x3 << 24)) >> 8) & 0xff == x1
                && ((x0 | (x1 << 8) | (x2 << 16) | (x3 << 24)) >> 16) & 0xff == x2
                && ((x0 | (x1 << 8) | (x2 << 16) | (x3 << 24)) >> 24) & 0xff == x3) by (bit_vector)
                requires
                    x0 < 256 && x1 < 256 && x2 < 256 && x3 < 256;
            assert(r.be_bytes() =~= bytes@.subrange(pos as int, pos + 4));
        }
        r
    }
}

impl ByteStructImpl for u64 {
    open spec fn spec_byte_len() -> nat {
        8
    }

    open spec fn wf(&self) -> bool {
        true
    }

    open spec fn le_bytes(&self) -> Seq<u8> {
        seq![
            (*self & 0xff) as u8,
            ((*self >> 8) & 0xff) as u8,
            ((*self >> 16) & 0xff) as u8,
            ((*self >> 24) & 0xff) as u8,
            ((*self >> 32) & 0xff) as u8,
            ((*self >> 40) & 0xff) as u8,
            ((*self >> 48) & 0xff) as u8,
            ((*self >> 56) & 0xff) as u8,
        ]
    }

    open spec fn be_bytes(&self) -> Seq<u8> {
        seq![
            ((*self >> 56) & 0xff) as u8,
            ((*self >> 48) & 0xff) as u8,
            ((*self >> 40) & 0xff) as u8,
            ((*self >> 32) & 0xff) as u8,
            ((*self >> 24) & 0xff) as u8,
            ((*self >> 16) & 0xff) as u8,
            ((*self >> 8) & 0xff) as u8,
            (*self & 0xff) as u8,
        ]
    }

    proof fn lemma_len(&self) {
    }

    proof fn lemma_injective(a: Self, b: Self) {
        assert(a & 0xff < 256 && (a >> 8) & 0xff < 256 && (a >> 16) & 0xff < 256 && (a >> 24)
            & 0xff < 256 && (a >> 32) & 0xff < 256 && (a >> 40) & 0xff < 256 && (a >> 48) & 0xff
            < 256 && (a >> 56) & 0xff < 256 && b & 0xff < 256 && (b >> 8) & 0xff < 256 && (b >> 16)
            & 0xff < 256 && (b >> 24) & 0xff < 256 && (b >> 32) & 0xff < 256 && (b >> 40) & 0xff
            < 256 && (b >> 48) & 0xff < 256 && (b >> 56) & 0xff < 256) by (bit_vector);
        if a.le_bytes() == b.le_bytes() || a.be_bytes() == b.be_bytes() {
            assert((a & 0xff) as u8 == (b & 0xff) as u8 && ((a >> 8) & 0xff) as u8 == ((b >> 8)
                & 0xff) as u8 && ((a >> 16) & 0xff) as u8 == ((b >> 16) & 0xff) as u8 && ((a >> 24)
                & 0xff) as u8 == ((b >> 24) & 0xff) as u8 && ((a >> 32) & 0xff) as u8 == ((b >> 32)
                & 0xff) as u8 && ((a >> 40) & 0xff) as u8 == ((b >> 40) & 0xff) as u8 && ((a >> 48)
                & 0xff) as u8 == ((b >> 48) & 0xff) as u8 && ((a >> 56) & 0xff) as u8 == ((b >> 56)
                & 0xff) as u8);
            assert((a & 0xff == b & 0xff && (a >> 8) & 0xff == (b >> 8) & 0xff && (a >> 16) & 0xff
                == (b >> 16) & 0xff && (a >> 24) & 0xff == (b >> 24) & 0xff && (a >> 32) & 0xff == (
            b >> 32) & 0xff && (a >> 40) & 0xff == (b >> 40) & 0xff && (a >> 48) & 0xff == (b >> 48)
                & 0xff && (a >> 56) & 0xff == (b >> 56) & 0xff) ==> a == b) by (bit_vector);
        }
    }

    exec fn byte_len() -> (n: usize) {
        8
    }

    exec fn write_le_bytes(&self, bytes: &mut [u8], pos: usize) {
        bytes[pos] = (*self & 0xff) as u8;
        bytes[pos + 1] = ((*self >> 8) & 0xff) as u8;
        bytes[pos + 2] = ((*self >> 16) & 0xff) as u8;
        bytes[pos + 3] = ((*self >> 24) & 0xff) as u8;
        bytes[pos + 4] = ((*self >> 32) & 0xff) as u8;
        bytes[pos + 5] = ((*self >> 40) & 0xff) as u8;
        bytes[pos + 6] = ((*self >> 48) & 0xff) as u8;
        bytes[pos + 7] = ((*self >> 56) & 0xff) as u8;
        proof {
            assert(final(bytes)@ =~= spliced(old(bytes)@, pos as int, self.le_bytes()));
        }
    }

    exec fn read_le_bytes(bytes: &[u8], pos: usize) -> (r: Self) {
        let b0 = bytes[pos];
        let b1 = bytes[pos + 1];
        let b2 = bytes[pos + 2];
        let b3 = bytes[pos + 3];
        let b4 = bytes[pos + 4];
        let b5 = bytes[pos + 5];
        let b6 = bytes[pos + 6];
        let b7 = bytes[pos + 7];
        let r = (b0 as u64) | ((b1 as u64) << 8) | ((b2 as u64) << 16) | ((b3 as u64) << 24) | ((
        b4 as u64) << 32) | ((b5 as u64) << 40) | ((b6 as u64) << 48) | ((b7 as u64) << 56);
        proof {
            let x0 = b0 as u64;
            let x1 = b1 as u64;
            let x2 = b2 as u64;
            let x3 = b3 as u64;
            let x4 = b4 as u64;
            let x5 = b5 as u64;
            let x6 = b6 as u64;
            let x7 = b7 as u64;
            let v = x0 | (x1 << 8) | (x2 << 16) | (x3 << 24) | (x4 << 32) | (x5 << 40) | (x6 << 48)
                | (x7 << 56);
            assert(v & 0xff == x0 && (v >> 8) & 0xff == x1 && (v >> 16) & 0xff == x2 && (v >> 24)
                & 0xff == x3 && (v >> 32) & 0xff == x4 && (v >> 40) & 0xff == x5 && (v >> 48) & 0xff
                == x6 && (v >> 56) & 0xff == x7) by (bit_vector)
                requires
                    x0 < 256 && x1 < 256 && x2 < 256 && x3 < 256 && x4 < 256 && x5 < 256 && x6
                        < 256 && x7 < 256,
                    v == x0 | (x1 << 8) | (x2 << 16) | (x3 << 24) | (x4 << 32) | (x5 << 40) | (x6
                        << 48) | (x7 << 56),
            ;
            assert(r.le_bytes() =~= bytes@.subrange(pos as int, pos + 8));
        }
        r
    }

    exec fn write_be_bytes(&self, bytes: &mut [u8], pos: usize) {
        bytes[pos] = ((*self >> 56) & 0xff) as u8;
        bytes[pos + 1] = ((*self >> 48) & 0xff) as u8;
        bytes[pos + 2] = ((*self >> 40) & 0xff) as u8;
        bytes[pos + 3] = ((*self >> 32) & 0xff) as u8;
        bytes[pos + 4] = ((*self >> 24) & 0xff) as u8;
        bytes[pos + 5] = ((*self >> 16) & 0xff) as u8;
        bytes[pos + 6] = ((*self >> 8) & 0xff) as u8;
        bytes[pos + 7] = (*self & 0xff) as u8;
        proof {
            assert(final(bytes)@ =~= spliced(old(bytes)@, pos as int, self.be_bytes()));
        }
    }

    exec fn read_be_bytes(bytes: &[u8], pos: usize) -> (r: Self) {
        let b7 = bytes[pos];
        let b6 = bytes[pos + 1];
        let b5 = bytes[pos + 2];
        let b4 = bytes[pos + 3];
        let b3 = bytes[pos + 4];
        let b2 = bytes[pos + 5];
        let b1 = bytes[pos + 6];
        let b0 = bytes[pos + 7];
        let r = (b0 as u64) | ((b1 as u64) << 8) | ((b2 as u64) << 16) | ((b3 as u64) << 24) | ((
        b4 as u64) << 32) | ((b5 as u64) << 40) | ((b6 as u64) << 48) | ((b7 as u64) << 56);
        proof {
            let x0 = b0 as u64;
            let x1 = b1 as u64;
            let x2 = b2 as u64;
            let x3 = b3 as u64;
            let x4 = b4 as u64;
            let x5 = b5 as u64;
            let x6 = b6 as u64;
            let x7 = b7 as u64;
            let v = x0 | (x1 << 8) | (x2 << 16) | (x3 << 24) | (x4 << 32) | (x5 << 40) | (x6 << 48)
                | (x7 << 56);
            assert(v & 0xff == x0 && (v >> 8) & 0xff == x1 && (v >> 16) & 0xff == x2 && (v >> 24)
                & 0xff == x3 && (v >> 32) & 0xff == x4 && (v >> 40) & 0xff == x5 && (v >> 48) & 0xff
                == x6 && (v >> 56) & 0xff == x7) by (bit_vector)
                requires
                    x0 < 256 && x1 < 256 && x2 < 256 && x3 < 256 && x4 < 256 && x5 < 256 && x6
                        < 256 && x7 < 256,
                    v == x0 | (x1 << 8) | (x2 << 16) | (x3 << 24) | (x4 << 32) | (x5 << 40) | (x6
                        << 48) | (x7 << 56),
            ;
            assert(r.be_bytes() =~= bytes@.subrange(pos as int, pos + 8));
        }
        r
    }
}

/// The unsigned two's-complement image of a signed byte.
pub open spec fn spec_i8_repr(x: i8) -> u8 {
    if x >= 0 {
        x as u8
    } else {
        (x + 0x100) as u8
    }
}

/// The unsigned two's-complement image of a signed 16-bit value.
pub open spec fn spec_i16_repr(x: i16) -> u16 {
    if x >= 0 {
        x as u16
    } else {
        (x + 0x10000) as u16
    }
}

/// The unsigned two's-complement image of a signed 32-bit value.
pub open spec fn spec_i32_repr(x: i32) -> u32 {
    if x >= 0 {
        x as u32
    } else {
        (x + 0x1_0000_0000) as u32
    }
}

exec fn i8_to_u8(x: i8) -> (r: u8)
    ensures
        r == spec_i8_repr(x),
{
    if x >= 0 {
        x as u8
    } else {
        ((x as i16) + 0x100) as u8
    }
}

exec fn u8_to_i8(x: u8) -> (r: i8)
    ensures
        spec_i8_repr(r) == x,
{
    if x < 0x80 {
        x as i8
    } else {
        ((x as i16) - 0x100) as i8
    }
}

exec fn i16_to_u16(x: i16) -> (r: u16)
    ensures
        r == spec_i16_repr(x),
{
    if x >= 0 {
        x as u16
    } else {
        ((x as i32) + 0x10000) as u16
    }
}

exec fn u16_to_i16(x: u16) -> (r: i16)
    ensures
        spec_i16_repr(r) == x,
{
    if x < 0x8000 {
        x as i16
    } else {
        ((x as i32) - 0x10000) as i16
    }
}

exec fn i32_to_u32(x: i32) -> (r: u32)
    ensures
        r == spec_i32_repr(x),
{
    if x >= 0 {
        x as u32
    } else {
        ((x as i64) + 0x1_0000_0000) as u32
    }
}

exec fn u32_to_i32(x: u32) -> (r: i32)
    ensures
        spec_i32_repr(r) == x,
{
    if x < 0x8000_0000 {
        x as i32
    } else {
        ((x as i64) - 0x1_0000_0000) as i32
    }
}

impl ByteStructImpl for i8 {
    open spec fn spec_byte_len() -> nat {
        1
    }

    open spec fn wf(&self) -> bool {
        true
    }

    open spec fn le_bytes(&self) -> Seq<u8> {
        spec_i8_repr(*self).le_bytes()
    }

    open spec fn be_bytes(&self) -> Seq<u8> {
        spec_i8_repr(*self).be_bytes()
    }

    proof fn lemma_len(&self) {
    }

    proof fn lemma_injective(a: Self, b: Self) {
        u8::lemma_injective(spec_i8_repr(a), spec_i8_repr(b));
    }

    exec fn byte_len() -> (n: usize) {
        1
    }

    exec fn write_le_bytes(&self, bytes: &mut [u8], pos: usize) {
        i8_to_u8(*self).write_le_bytes(bytes, pos);
    }

    exec fn read_le_bytes(bytes: &[u8], pos: usize) -> (r: Self) {
        u8_to_i8(u8::read_le_bytes(bytes, pos))
    }

    exec fn write_be_bytes(&self, bytes: &mut [u8], pos: usize) {
        i8_to_u8(*self).write_be_bytes(bytes, pos);
    }

    exec fn read_be_bytes(bytes: &[u8], pos: usize) -> (r: Self) {
        u8_to_i8(u8::read_be_bytes(bytes, pos))
    }
}

impl ByteStructImpl for i16 {
    open spec fn spec_byte_len() -> nat {
        2
    }

    open spec fn wf(&self) -> bool {
        true
    }

    open spec fn le_bytes(&self) -> Seq<u8> {
        spec_i16_repr(*self).le_bytes()
    }

    open spec fn be_bytes(&self) -> Seq<u8> {
        spec_i16_repr(*self).be_bytes()
    }

    proof fn lemma_len(&self) {
    }

    proof fn lemma_injective(a: Self, b: Self) {
        u16::lemma_injective(spec_i16_repr(a), spec_i16_repr(b));
    }

    exec fn byte_len() -> (n: usize) {
        2
    }

    exec fn write_le_bytes(&self, bytes: &mut [u8], pos: usize) {
        i16_to_u16(*self).write_le_bytes(bytes, pos);
    }

    exec fn read_le_bytes(bytes: &[u8], pos: usize) -> (r: Self) {
        u16_to_i16(u16::read_le_bytes(bytes, pos))
    }

    exec fn write_be_bytes(&self, bytes: &mut [u8], pos: usize) {
        i16_to_u16(*self).write_be_bytes(bytes, pos);
    }

    exec fn read_be_bytes(bytes: &[u8], pos: usize) -> (r: Self) {
        u16_to_i16(u16::read_be_bytes(bytes, pos))
    }
}

impl ByteStructImpl for i32 {
    open spec fn spec_byte_len() -> nat {
        4
    }

    open spec fn wf(&self) -> bool {
        true
    }

    open spec fn le_bytes(&self) -> Seq<u8> {
        spec_i32_repr(*self).le_bytes()
    }

    open spec fn be_bytes(&self) -> Seq<u8> {
        spec_i32_repr(*self).be_bytes()
    }

    proof fn lemma_len(&self) {
    }

    proof fn lemma_injective(a: Self, b: Self) {
        u32::lemma_injective(spec_i32_repr(a), spec_i32_repr(b));
    }

    exec fn byte_len() -> (n: usize) {
        4
    }

    exec fn write_le_bytes(&self, bytes: &mut [u8], pos: usize) {
        i32_to_u32(*self).write_le_bytes(bytes, pos);
    }

    exec fn read_le_bytes(bytes: &[u8], pos: usize) -> (r: Self) {
        u32_to_i32(u32::read_le_bytes(bytes, pos))
    }

    exec fn write_be_bytes(&self, bytes: &mut [u8], pos: usize) {
        i32_to_u32(*self).write_be_bytes(bytes, pos);
    }

    exec fn read_be_bytes(bytes: &[u8], pos: usize) -> (r: Self) {
        u32_to_i32(u32::read_be_bytes(bytes, pos))
    }
}

/// Every element of `s` is well-formed.
pub open spec fn wf_seq<T: ByteStructImpl>(s: Seq<T>) -> bool {
    forall|i: int| 0 <= i < s.len() ==> #[trigger] s[i].wf()
}

/// The concatenated encodings of the elements of `s`, each in the byte
/// order selected by `be`.
pub open spec fn seq_bytes<T: ByteStructImpl>(s: Seq<T>, be: bool) -> Seq<u8>
    decreases s.len(),
{
    if s.len() == 0 {
        Seq::empty()
    } else {
        elem_bytes(s[0], be) + seq_bytes(s.drop_first(), be)
    }
}

/// The encoding of one element in the byte order selected by `be`.
pub open spec fn elem_bytes<T: ByteStructImpl>(v: T, be: bool) -> Seq<u8> {
    if be {
        v.be_bytes()
    } else {
        v.le_bytes()
    }
}

pub proof fn lemma_seq_bytes_len<T: ByteStructImpl>(s: Seq<T>, be: bool)
    requires
        wf_seq(s),
    ensures
        seq_bytes(s, be).len() == s.len() * T::spec_byte_len(),
    decreases s.len(),
{
    if s.len() == 0 {
    } else {
        s[0].lemma_len();
        lemma_seq_bytes_len(s.drop_first(), be);
        assert(s.drop_first().len() * T::spec_byte_len() + T::spec_byte_len() == s.len()
            * T::spec_byte_len()) by (nonlinear_arith)
            requires
                s.drop_first().len() + 1 == s.len(),
        ;
    }
}

/// Appending one element appends its encoding.
pub proof fn lemma_seq_bytes_push<T: ByteStructImpl>(s: Seq<T>, v: T, be: bool)
    ensures
        seq_bytes(s.push(v), be) == seq_bytes(s, be) + elem_bytes(v, be),
    decreases s.len(),
{
    if s.len() == 0 {
        assert(s.push(v).drop_first() =~= s);
        assert(seq_bytes(s.push(v), be) =~= seq_bytes(s, be) + elem_bytes(v, be));
    } else {
        lemma_seq_bytes_push(s.drop_first(), v, be);
        assert(s.push(v).drop_first() =~= s.drop_first().push(v));
        assert(seq_bytes(s.push(v), be) =~= seq_bytes(s, be) + elem_bytes(v, be));
    }
}

/// Equal concatenated encodings of equally long well-formed element
/// sequences force the sequences themselves to be equal.
pub proof fn lemma_seq_bytes_injective<T: ByteStructImpl>(a: Seq<T>, b: Seq<T>, be: bool)
    requires
        wf_seq(a),
        wf_seq(b),
        a.len() == b.len(),
        seq_bytes(a, be) == seq_bytes(b, be),
    ensures
        a == b,
    decreases a.len(),
{
    if a.len() == 0 {
        assert(a =~= b);
    } else {
        a[0].lemma_len();
        b[0].lemma_len();
        let la = elem_bytes(a[0], be);
        let lb = elem_bytes(b[0], be);
        let ra = seq_bytes(a.drop_first(), be);
        let rb = seq_bytes(b.drop_first(), be);
        assert(la =~= (la + ra).subrange(0, la.len() as int));
        assert(lb =~= (lb + rb).subrange(0, lb.len() as int));
        assert(ra =~= (la + ra).subrange(la.len() as int, (la + ra).len() as int));
        assert(rb =~= (lb + rb).subrange(lb.len() as int, (lb + rb).len() as int));
        T::lemma_injective(a[0], b[0]);
        lemma_seq_bytes_injective(a.drop_first(), b.drop_first(), be);
        assert forall|i: int| 0 <= i < a.len() implies a[i] == b[i] by {
            if i > 0 {
                assert(a.drop_first()[i - 1] == b.drop_first()[i - 1]);
            }
        }
        assert(a =~= b);
    }
}

/// Writes every element of `items` contiguously, starting at `pos`, in the
/// byte order selected by `be`.
pub exec fn write_items<T: ByteStructImpl>(items: &[T], bytes: &mut [u8], pos: usize, be: bool)
    requires
        wf_seq(items@),
        pos + items@.len() * T::spec_byte_len() <= old(bytes)@.len(),
    ensures
        final(bytes)@ == spliced(old(bytes)@, pos as int, seq_bytes(items@, be)),
{
    proof {
        lemma_seq_bytes_len(items@, be);
    }
    let buf_len = bytes.len();
    proof {
        assert(buf_len == bytes@.len());
    }
    let elem_len = T::byte_len();
    let n = items.len();
    let mut i: usize = 0;
    proof {
        assert(seq_bytes(items@.take(0), be) =~= Seq::<u8>::empty());
        assert(spliced(old(bytes)@, pos as int, Seq::<u8>::empty()) =~= old(bytes)@);
    }
    while i < n
        invariant
            n == items@.len(),
            elem_len == T::spec_byte_len(),
            i <= n,
            wf_seq(items@),
            pos + n * T::spec_byte_len() <= old(bytes)@.len(),
            old(bytes)@.len() <= usize::MAX,
            bytes@.len() == old(bytes)@.len(),
            bytes@ == spliced(old(bytes)@, pos as int, seq_bytes(items@.take(i as int), be)),
        decreases n - i,
    {
        proof {
            lemma_seq_bytes_len(items@.take(i as int), be);
            assert(i * T::spec_byte_len() + T::spec_byte_len() <= n * T::spec_byte_len())
                by (nonlinear_arith)
                requires
                    i < n,
                    T::spec_byte_len() >= 0,
            ;
        }
        let ghost pre = bytes@;
        items[i].write_le_or_be(bytes, pos + i * elem_len, be);
        proof {
            items@[i as int].lemma_len();
            lemma_spliced_append(
                old(bytes)@,
                pos as int,
                seq_bytes(items@.take(i as int), be),
                elem_bytes(items@[i as int], be),
            );
            lemma_seq_bytes_push(items@.take(i as int), items@[i as int], be);
            assert(items@.take(i as int).push(items@[i as int]) =~= items@.take(i + 1));
        }
        i = i + 1;
    }
    proof {
        assert(items@.take(n as int) =~= items@);
    }
}

/// Reads `N` contiguous elements starting at `pos`, in the byte order
/// selected by `be`.
pub exec fn read_array<T: ByteStructImpl + Copy, const N: usize>(
    bytes: &[u8],
    pos: usize,
    be: bool,
) -> (r: [T; N])
    requires
        N >= 1,
        pos + N * T::spec_byte_len() <= bytes@.len(),
    ensures
        wf_seq(r@),
        seq_bytes(r@, be) == bytes@.subrange(pos as int, pos + N * T::spec_byte_len()),
{
    let buf_len = bytes.len();
    proof {
        assert(buf_len == bytes@.len());
    }
    let elem_len = T::byte_len();
    proof {
        assert(T::spec_byte_len() <= N * T::spec_byte_len()) by (nonlinear_arith)
            requires
                N >= 1,
                T::spec_byte_len() >= 0,
        ;
    }
    let first: T = T::read_le_or_be(bytes, pos, be);
    let mut r: [T; N] = vstd::array::array_fill_for_copy_types::<T, N>(first);
    proof {
        assert(r@[0] == first);
        assert(0 * T::spec_byte_len() == 0 && 1 * T::spec_byte_len() == T::spec_byte_len());
    }
    let mut i: usize = 1;
    while i < N
        invariant
            1 <= i <= N,
            elem_len == T::spec_byte_len(),
            pos + N * T::spec_byte_len() <= bytes@.len(),
            bytes@.len() <= usize::MAX,
            forall|j: int| #![trigger r@[j]]
                0 <= j < i ==> r@[j].wf() && elem_bytes(r@[j], be) == bytes@.subrange(
                    pos + j * T::spec_byte_len(),
                    pos + (j + 1) * T::spec_byte_len(),
                ),
        decreases N - i,
    {
        proof {
            assert(i * T::spec_byte_len() + T::spec_byte_len() == (i + 1) * T::spec_byte_len()
                && (i + 1) * T::spec_byte_len() <= N * T::spec_byte_len()) by (nonlinear_arith)
                requires
                    i < N,
                    T::spec_byte_len() >= 0,
            ;
        }
        let v: T = T::read_le_or_be(bytes, pos + i * elem_len, be);
        let ghost r0 = r@;
        r[i] = v;
        proof {
            assert(r@ == r0.update(i as int, v));
            assert(r0.len() == N);
            assert forall|j: int| #![trigger r@[j]]
                0 <= j < i + 1 implies r@[j].wf() && elem_bytes(r@[j], be) == bytes@.subrange(
                pos + j * T::spec_byte_len(),
                pos + (j + 1) * T::spec_byte_len(),
            ) by {
                if j < i {
                    assert(r@[j] == r0[j]);
                    assert(r0[j].wf() && elem_bytes(r0[j], be) == bytes@.subrange(
                        pos + j * T::spec_byte_len(),
                        pos + (j + 1) * T::spec_byte_len(),
                    ));
                } else {
                    assert(r@[j] == v);
                }
            }
        }
        i = i + 1;
    }
    proof {
        lemma_chunked_bytes(r@, bytes@, pos as int, be);
    }
    r
}

/// If every element of `s` encodes the matching chunk of `bytes`, the
/// concatenated encoding is the whole covered range.
proof fn lemma_chunked_bytes<T: ByteStructImpl>(s: Seq<T>, bytes: Seq<u8>, pos: int, be: bool)
    requires
        0 <= pos,
        pos + s.len() * T::spec_byte_len() <= bytes.len(),
        forall|j: int| #![trigger s[j]]
            0 <= j < s.len() ==> s[j].wf() && elem_bytes(s[j], be) == bytes.subrange(
                pos + j * T::spec_byte_len(),
                pos + (j + 1) * T::spec_byte_len(),
            ),
    ensures
        wf_seq(s),
        seq_bytes(s, be) == bytes.subrange(pos, pos + s.len() * T::spec_byte_len()),
    decreases s.len(),
{
    let w = T::spec_byte_len() as int;
    if s.len() == 0 {
        assert(seq_bytes(s, be) =~= bytes.subrange(pos, pos));
    } else {
        assert forall|j: int| #![trigger s.drop_first()[j]]
            0 <= j < s.drop_first().len() implies s.drop_first()[j].wf() && elem_bytes(
            s.drop_first()[j],
            be,
        ) == bytes.subrange((pos + w) + j * w, (pos + w) + (j + 1) * w) by {
            assert(s.drop_first()[j] == s[j + 1]);
            assert(s[j + 1].wf() && elem_bytes(s[j + 1], be) == bytes.subrange(
                pos + (j + 1) * w,
                pos + (j + 2) * w,
            ));
            assert((j + 1) * w == j * w + w) by (nonlinear_arith);
            assert((j + 2) * w == (j + 1) * w + w) by (nonlinear_arith);
        }
        assert(s.drop_first().len() * w == s.len() * w - w) by (nonlinear_arith)
            requires
                s.len() >= 1,
        ;
        lemma_chunked_bytes(s.drop_first(), bytes, pos + w, be);
        assert(s[0].wf());
        assert(elem_bytes(s[0], be) == bytes.subrange(pos, pos + w));
        assert(seq_bytes(s, be) =~= bytes.subrange(pos, pos + s.len() * w));
    }
}

} // verus!
// Functional little-endian readers, for stating parser contracts directly
// over the input bytes.

verus! {

/// The 16-bit little-endian value stored at `pos`.
pub open spec fn spec_le16(s: Seq<u8>, pos: int) -> u16 {
    (s[pos] as u16) | ((s[pos + 1] as u16) << 8)
}

/// The 32-bit little-endian value stored at `pos`.
pub open spec fn spec_le32(s: Seq<u8>, pos: int) -> u32 {
    (s[pos] as u32) | ((s[pos + 1] as u32) << 8) | ((s[pos + 2] as u32) << 16) | ((s[pos + 3]
        as u32) << 24)
}

/// The signed 16-bit little-endian value stored at `pos`.
pub open spec fn spec_le16i(s: Seq<u8>, pos: int) -> i16 {
    if spec_le16(s, pos) < 0x8000 {
        spec_le16(s, pos) as i16
    } else {
        (spec_le16(s, pos) - 0x10000) as i16
    }
}

/// The little-endian encoding of `spec_le16` is the two bytes themselves.
pub proof fn lemma_le16_bytes(s: Seq<u8>, pos: int)
    requires
        0 <= pos,
        pos + 2 <= s.len(),
    ensures
        spec_le16(s, pos).le_bytes() == s.subrange(pos, pos + 2),
{
    let lo = s[pos];
    let hi = s[pos + 1];
    assert(((lo as u16) | ((hi as u16) << 8)) & 0xff == lo as u16 && (((lo as u16) | ((hi as u16)
        << 8)) >> 8) & 0xff == hi as u16) by (bit_vector);
    assert(spec_le16(s, pos).le_bytes() =~= s.subrange(pos, pos + 2));
}

/// The little-endian encoding of `spec_le32` is the four bytes themselves.
pub proof fn lemma_le32_bytes(s: Seq<u8>, pos: int)
    requires
        0 <= pos,
        pos + 4 <= s.len(),
    ensures
        spec_le32(s, pos).le_bytes() == s.subrange(pos, pos + 4),
{
    let x0 = s[pos] as u32;
    let x1 = s[pos + 1] as u32;
    let x2 = s[pos + 2] as u32;
    let x3 = s[pos + 3] as u32;
    assert((x0 | (x1 << 8) | (x2 << 16) | (x3 << 24)) & 0xff == x0 && ((x0 | (x1 << 8) | (x2
        << 16) | (x3 << 24)) >> 8) & 0xff == x1 && ((x0 | (x1 << 8) | (x2 << 16) | (x3 << 24))
        >> 16) & 0xff == x2 && ((x0 | (x1 << 8) | (x2 << 16) | (x3 << 24)) >> 24) & 0xff == x3)
        by (bit_vector)
        requires
            x0 < 256 && x1 < 256 && x2 < 256 && x3 < 256,
    ;
    assert(spec_le32(s, pos).le_bytes() =~= s.subrange(pos, pos + 4));
}

/// Reads the 16-bit little-endian value at `pos`.
pub fn read_le16(bytes: &[u8], pos: usize) -> (r: u16)
    requires
        pos + 2 <= bytes@.len(),
    ensures
        r == spec_le16(bytes@, pos as int),
{
    let r = u16::read_le_bytes(bytes, pos);
    proof {
        lemma_le16_bytes(bytes@, pos as int);
        u16::lemma_injective(r, spec_le16(bytes@, pos as int));
    }
    r
}

/// Reads the 32-bit little-endian value at `pos`.
pub fn read_le32(bytes: &[u8], pos: usize) -> (r: u32)
    requires
        pos + 4 <= bytes@.len(),
    ensures
        r == spec_le32(bytes@, pos as int),
{
    let r = u32::read_le_bytes(bytes, pos);
    proof {
        lemma_le32_bytes(bytes@, pos as int);
        u32::lemma_injective(r, spec_le32(bytes@, pos as int));
    }
    r
}

/// Reads the signed 16-bit little-endian value at `pos`.
pub fn read_le16i(bytes: &[u8], pos: usize) -> (r: i16)
    requires
        pos + 2 <= bytes@.len(),
    ensures
        r == spec_le16i(bytes@, pos as int),
{
    let r = i16::read_le_bytes(bytes, pos);
    proof {
        lemma_le16_bytes(bytes@, pos as int);
        i16::lemma_injective(r, spec_le16i(bytes@, pos as int));
        assert(spec_i16_repr(spec_le16i(bytes@, pos as int)) == spec_le16(bytes@, pos as int));
    }
    r
}

} // verus!
