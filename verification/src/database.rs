//! The save-file database: packed bit-field headers, profile records, the
//! full database record, and its two CRC-protected byte ranges.
//!
//! The database is an otherwise little-endian record; each profile carries
//! a big-endian identity sub-record.  Loading validates both checksums and
//! saving re-encodes the whole database into a buffer of identical length,
//! recomputing both checksums over their fixed ranges.

use crate::codec::{
    lemma_seq_bytes_injective, lemma_seq_bytes_len, lemma_spliced_append, read_array, seq_bytes,
    spliced, wf_seq, write_items, ByteStruct, ByteStructImpl,
};
use crate::crc::{crc16_ninty, spec_crc16};
use vstd::prelude::*;
use vstd::slice::slice_subrange;

verus! {

#[derive(Clone, Copy, Debug, PartialEq, Eq, Default)]
pub struct ProfileHeader {
    pub three: u32,
    pub allow_copying: u32,
    pub private_name: u32,
    pub region_lock: u32,
    pub char_set: u32,
    pub padding_a: u32,
    pub page: u32,
    pub slot: u32,
    pub version_minor: u32,
    pub version_major: u32,
    pub padding_b: u32,
}

impl ProfileHeader {
    /// The fields packed into `raw`, first field in the lowest bits.
    pub open spec fn spec_from_raw(raw: u32) -> ProfileHeader {
        ProfileHeader {
            three: raw & 0xff,
            allow_copying: (raw >> 8) & 0x1,
            private_name: (raw >> 9) & 0x1,
            region_lock: (raw >> 10) & 0x3,
            char_set: (raw >> 12) & 0x3,
            padding_a: (raw >> 14) & 0x3,
            page: (raw >> 16) & 0xf,
            slot: (raw >> 20) & 0xf,
            version_minor: (raw >> 24) & 0xf,
            version_major: (raw >> 28) & 0x7,
            padding_b: (raw >> 31) & 0x1,
        }
    }

    /// The raw value holding the fields, first field in the lowest bits.
    pub open spec fn spec_to_raw(self) -> u32 {
        self.three | (self.allow_copying << 8) | (self.private_name << 9) | (self.region_lock << 10) | (self.char_set << 12) | (self.padding_a << 14) | (self.page << 16) | (self.slot << 20) | (self.version_minor << 24) | (self.version_major << 28) | (self.padding_b << 31)
    }

    pub exec fn from_raw(raw: u32) -> (r: ProfileHeader)
        ensures
            r == ProfileHeader::spec_from_raw(raw),
    {
        ProfileHeader {
            three: raw & 0xff,
            allow_copying: (raw >> 8) & 0x1,
            private_name: (raw >> 9) & 0x1,
            region_lock: (raw >> 10) & 0x3,
            char_set: (raw >> 12) & 0x3,
            padding_a: (raw >> 14) & 0x3,
            page: (raw >> 16) & 0xf,
            slot: (raw >> 20) & 0xf,
            version_minor: (raw >> 24) & 0xf,
            version_major: (raw >> 28) & 0x7,
            padding_b: (raw >> 31) & 0x1,
        }
    }

    pub exec fn to_raw(&self) -> (r: u32)
        ensures
            r == self.spec_to_raw(),
    {
        self.three | (self.allow_copying << 8) | (self.private_name << 9) | (self.region_lock << 10) | (self.char_set << 12) | (self.padding_a << 14) | (self.page << 16) | (self.slot << 20) | (self.version_minor << 24) | (self.version_major << 28) | (self.padding_b << 31)
    }

    /// Unpacking any raw value and packing the fields again gives the
    /// raw value back, and the unpacked fields each fit their width.
    pub proof fn lemma_raw_round_trip(raw: u32)
        ensures
            ProfileHeader::spec_from_raw(raw).wf(),
            ProfileHeader::spec_from_raw(raw).spec_to_raw() == raw,
    {
        assert(((raw & 0xff) | (((raw >> 8) & 0x1) << 8) | (((raw >> 9) & 0x1) << 9) | (((raw >> 10) & 0x3) << 10) | (((raw >> 12) & 0x3) << 12) | (((raw >> 14) & 0x3) << 14) | (((raw >> 16) & 0xf) << 16) | (((raw >> 20) & 0xf) << 20) | (((raw >> 24) & 0xf) << 24) | (((raw >> 28) & 0x7) << 28) | (((raw >> 31) & 0x1) << 31)) == raw && raw & 0xff < 0x100 && (raw >> 8) & 0x1 < 0x2 && (raw >> 9) & 0x1 < 0x2 && (raw >> 10) & 0x3 < 0x4 && (raw >> 12) & 0x3 < 0x4 && (raw >> 14) & 0x3 < 0x4 && (raw >> 16) & 0xf < 0x10 && (raw >> 20) & 0xf < 0x10 && (raw >> 24) & 0xf < 0x10 && (raw >> 28) & 0x7 < 0x8 && (raw >> 31) & 0x1 < 0x2) by (bit_vector);
    }

    /// Packing well-formed fields and unpacking them returns each field.
    pub proof fn lemma_field_round_trip(v: ProfileHeader)
        requires
            v.wf(),
        ensures
            ProfileHeader::spec_from_raw(v.spec_to_raw()) == v,
    {
        let f_three = v.three;
        let f_allow_copying = v.allow_copying;
        let f_private_name = v.private_name;
        let f_region_lock = v.region_lock;
        let f_char_set = v.char_set;
        let f_padding_a = v.padding_a;
        let f_page = v.page;
        let f_slot = v.slot;
        let f_version_minor = v.version_minor;
        let f_version_major = v.version_major;
        let f_padding_b = v.padding_b;
        assert((f_three | (f_allow_copying << 8) | (f_private_name << 9) | (f_region_lock << 10) | (f_char_set << 12) | (f_padding_a << 14) | (f_page << 16) | (f_slot << 20) | (f_version_minor << 24) | (f_version_major << 28) | (f_padding_b << 31)) & 0xff == f_three && ((f_three | (f_allow_copying << 8) | (f_private_name << 9) | (f_region_lock << 10) | (f_char_set << 12) | (f_padding_a << 14) | (f_page << 16) | (f_slot << 20) | (f_version_minor << 24) | (f_version_major << 28) | (f_padding_b << 31)) >> 8) & 0x1 == f_allow_copying && ((f_three | (f_allow_copying << 8) | (f_private_name << 9) | (f_region_lock << 10) | (f_char_set << 12) | (f_padding_a << 14) | (f_page << 16) | (f_slot << 20) | (f_version_minor << 24) | (f_version_major << 28) | (f_padding_b << 31)) >> 9) & 0x1 == f_private_name && ((f_three | (f_allow_copying << 8) | (f_private_name << 9) | (f_region_lock << 10) | (f_char_set << 12) | (f_padding_a << 14) | (f_page << 16) | (f_slot << 20) | (f_version_minor << 24) | (f_version_major << 28) | (f_padding_b << 31)) >> 10) & 0x3 == f_region_lock && ((f_three | (f_allow_copying << 8) | (f_private_name << 9) | (f_region_lock << 10) | (f_char_set << 12) | (f_padding_a << 14) | (f_page << 16) | (f_slot << 20) | (f_version_minor << 24) | (f_version_major << 28) | (f_padding_b << 31)) >> 12) & 0x3 == f_char_set && ((f_three | (f_allow_copying << 8) | (f_private_name << 9) | (f_region_lock << 10) | (f_char_set << 12) | (f_padding_a << 14) | (f_page << 16) | (f_slot << 20) | (f_version_minor << 24) | (f_version_major << 28) | (f_padding_b << 31)) >> 14) & 0x3 == f_padding_a && ((f_three | (f_allow_copying << 8) | (f_private_name << 9) | (f_region_lock << 10) | (f_char_set << 12) | (f_padding_a << 14) | (f_page << 16) | (f_slot << 20) | (f_version_minor << 24) | (f_version_major << 28) | (f_padding_b << 31)) >> 16) & 0xf == f_page && ((f_three | (f_allow_copying << 8) | (f_private_name << 9) | (f_region_lock << 10) | (f_char_set << 12) | (f_padding_a << 14) | (f_page << 16) | (f_slot << 20) | (f_version_minor << 24) | (f_version_major << 28) | (f_padding_b << 31)) >> 20) & 0xf == f_slot && ((f_three | (f_allow_copying << 8) | (f_private_name << 9) | (f_region_lock << 10) | (f_char_set << 12) | (f_padding_a << 14) | (f_page << 16) | (f_slot << 20) | (f_version_minor << 24) | (f_version_major << 28) | (f_padding_b << 31)) >> 24) & 0xf == f_version_minor && ((f_three | (f_allow_copying << 8) | (f_private_name << 9) | (f_region_lock << 10) | (f_char_set << 12) | (f_padding_a << 14) | (f_page << 16) | (f_slot << 20) | (f_version_minor << 24) | (f_version_major << 28) | (f_padding_b << 31)) >> 28) & 0x7 == f_version_major && ((f_three | (f_allow_copying << 8) | (f_private_name << 9) | (f_region_lock << 10) | (f_char_set << 12) | (f_padding_a << 14) | (f_page << 16) | (f_slot << 20) | (f_version_minor << 24) | (f_version_major << 28) | (f_padding_b << 31)) >> 31) & 0x1 == f_padding_b) by (bit_vector)
            requires
                f_three < 0x100,
                f_allow_copying < 0x2,
                f_private_name < 0x2,
                f_region_lock < 0x4,
                f_char_set < 0x4,
                f_padding_a < 0x4,
                f_page < 0x10,
                f_slot < 0x10,
                f_version_minor < 0x10,
                f_version_major < 0x8,
                f_padding_b < 0x2,
        ;
    }
}

impl ByteStructImpl for ProfileHeader {
    open spec fn spec_byte_len() -> nat {
        4
    }

    open spec fn wf(&self) -> bool {
        self.three < 0x100 && self.allow_copying < 0x2 && self.private_name < 0x2 && self.region_lock < 0x4 && self.char_set < 0x4 && self.padding_a < 0x4 && self.page < 0x10 && self.slot < 0x10 && self.version_minor < 0x10 && self.version_major < 0x8 && self.padding_b < 0x2
    }

    open spec fn le_bytes(&self) -> Seq<u8> {
        self.spec_to_raw().le_bytes()
    }

    open spec fn be_bytes(&self) -> Seq<u8> {
        self.spec_to_raw().be_bytes()
    }

    proof fn lemma_len(&self) {
    }

    proof fn lemma_injective(a: Self, b: Self) {
        u32::lemma_injective(a.spec_to_raw(), b.spec_to_raw());
        ProfileHeader::lemma_field_round_trip(a);
        ProfileHeader::lemma_field_round_trip(b);
    }

    exec fn byte_len() -> (n: usize) {
        4
    }

    exec fn write_le_bytes(&self, bytes: &mut [u8], pos: usize) {
        self.to_raw().write_le_bytes(bytes, pos);
    }

    exec fn read_le_bytes(bytes: &[u8], pos: usize) -> (r: Self) {
        let raw = u32::read_le_bytes(bytes, pos);
        proof {
            ProfileHeader::lemma_raw_round_trip(raw);
        }
        ProfileHeader::from_raw(raw)
    }

    exec fn write_be_bytes(&self, bytes: &mut [u8], pos: usize) {
        self.to_raw().write_be_bytes(bytes, pos);
    }

    exec fn read_be_bytes(bytes: &[u8], pos: usize) -> (r: Self) {
        let raw = u32::read_be_bytes(bytes, pos);
        proof {
            ProfileHeader::lemma_raw_round_trip(raw);
        }
        ProfileHeader::from_raw(raw)
    }
}

#[derive(Clone, Copy, Debug, PartialEq, Eq, Default)]
pub struct ProfileIdLow {
    pub creation_date: u32,
    pub unknown: u32,
    pub temporary: u32,
    pub ntr: u32,
    pub normal: u32,
}

impl ProfileIdLow {
    /// The fields packed into `raw`, first field in the lowest bits.
    pub open spec fn spec_from_raw(raw: u32) -> ProfileIdLow {
        ProfileIdLow {
            creation_date: raw & 0xfffffff,
            unknown: (raw >> 28) & 0x1,
            temporary: (raw >> 29) & 0x1,
            ntr: (raw >> 30) & 0x1,
            normal: (raw >> 31) & 0x1,
        }
    }

    /// The raw value holding the fields, first field in the lowest bits.
    pub open spec fn spec_to_raw(self) -> u32 {
        self.creation_date | (self.unknown << 28) | (self.temporary << 29) | (self.ntr << 30) | (self.normal << 31)
    }

    pub exec fn from_raw(raw: u32) -> (r: ProfileIdLow)
        ensures
            r == ProfileIdLow::spec_from_raw(raw),
    {
        ProfileIdLow {
            creation_date: raw & 0xfffffff,
            unknown: (raw >> 28) & 0x1,
            temporary: (raw >> 29) & 0x1,
            ntr: (raw >> 30) & 0x1,
            normal: (raw >> 31) & 0x1,
        }
    }

    pub exec fn to_raw(&self) -> (r: u32)
        ensures
            r == self.spec_to_raw(),
    {
        self.creation_date | (self.unknown << 28) | (self.temporary << 29) | (self.ntr << 30) | (self.normal << 31)
    }

    /// Unpacking any raw value and packing the fields again gives the
    /// raw value back, and the unpacked fields each fit their width.
    pub proof fn lemma_raw_round_trip(raw: u32)
        ensures
            ProfileIdLow::spec_from_raw(raw).wf(),
            ProfileIdLow::spec_from_raw(raw).spec_to_raw() == raw,
    {
        assert(((raw & 0xfffffff) | (((raw >> 28) & 0x1) << 28) | (((raw >> 29) & 0x1) << 29) | (((raw >> 30) & 0x1) << 30) | (((raw >> 31) & 0x1) << 31)) == raw && raw & 0xfffffff < 0x10000000 && (raw >> 28) & 0x1 < 0x2 && (raw >> 29) & 0x1 < 0x2 && (raw >> 30) & 0x1 < 0x2 && (raw >> 31) & 0x1 < 0x2) by (bit_vector);
    }

    /// Packing well-formed fields and unpacking them returns each field.
    pub proof fn lemma_field_round_trip(v: ProfileIdLow)
        requires
            v.wf(),
        ensures
            ProfileIdLow::spec_from_raw(v.spec_to_raw()) == v,
    {
        let f_creation_date = v.creation_date;
        let f_unknown = v.unknown;
        let f_temporary = v.temporary;
        let f_ntr = v.ntr;
        let f_normal = v.normal;
        assert((f_creation_date | (f_unknown << 28) | (f_temporary << 29) | (f_ntr << 30) | (f_normal << 31)) & 0xfffffff == f_creation_date && ((f_creation_date | (f_unknown << 28) | (f_temporary << 29) | (f_ntr << 30) | (f_normal << 31)) >> 28) & 0x1 == f_unknown && ((f_creation_date | (f_unknown << 28) | (f_temporary << 29) | (f_ntr << 30) | (f_normal << 31)) >> 29) & 0x1 == f_temporary && ((f_creation_date | (f_unknown << 28) | (f_temporary << 29) | (f_ntr << 30) | (f_normal << 31)) >> 30) & 0x1 == f_ntr && ((f_creation_date | (f_unknown << 28) | (f_temporary << 29) | (f_ntr << 30) | (f_normal << 31)) >> 31) & 0x1 == f_normal) by (bit_vector)
            requires
                f_creation_date < 0x10000000,
                f_unknown < 0x2,
                f_temporary < 0x2,
                f_ntr < 0x2,
                f_normal < 0x2,
        ;
    }
}

impl ByteStructImpl for ProfileIdLow {
    open spec fn spec_byte_len() -> nat {
        4
    }

    open spec fn wf(&self) -> bool {
        self.creation_date < 0x10000000 && self.unknown < 0x2 && self.temporary < 0x2 && self.ntr < 0x2 && self.normal < 0x2
    }

    open spec fn le_bytes(&self) -> Seq<u8> {
        self.spec_to_raw().le_bytes()
    }

    open spec fn be_bytes(&self) -> Seq<u8> {
        self.spec_to_raw().be_bytes()
    }

    proof fn lemma_len(&self) {
    }

    proof fn lemma_injective(a: Self, b: Self) {
        u32::lemma_injective(a.spec_to_raw(), b.spec_to_raw());
        ProfileIdLow::lemma_field_round_trip(a);
        ProfileIdLow::lemma_field_round_trip(b);
    }

    exec fn byte_len() -> (n: usize) {
        4
    }

    exec fn write_le_bytes(&self, bytes: &mut [u8], pos: usize) {
        self.to_raw().write_le_bytes(bytes, pos);
    }

    exec fn read_le_bytes(bytes: &[u8], pos: usize) -> (r: Self) {
        let raw = u32::read_le_bytes(bytes, pos);
        proof {
            ProfileIdLow::lemma_raw_round_trip(raw);
        }
        ProfileIdLow::from_raw(raw)
    }

    exec fn write_be_bytes(&self, bytes: &mut [u8], pos: usize) {
        self.to_raw().write_be_bytes(bytes, pos);
    }

    exec fn read_be_bytes(bytes: &[u8], pos: usize) -> (r: Self) {
        let raw = u32::read_be_bytes(bytes, pos);
        proof {
            ProfileIdLow::lemma_raw_round_trip(raw);
        }
        ProfileIdLow::from_raw(raw)
    }
}

/// The big-endian identity sub-record of a profile.
#[derive(Clone, Copy, Debug, PartialEq)]
pub struct ProfileId {
    pub low: ProfileIdLow,
    pub mac: [u8; 6],
}

impl ByteStructImpl for ProfileId {
    open spec fn spec_byte_len() -> nat {
        0xa
    }

    open spec fn wf(&self) -> bool {
        self.low.wf() && wf_seq(self.mac@)
    }

    open spec fn le_bytes(&self) -> Seq<u8> {
        self.low.be_bytes() + seq_bytes(self.mac@, true)
    }

    open spec fn be_bytes(&self) -> Seq<u8> {
        self.le_bytes()
    }

    proof fn lemma_len(&self) {
        self.low.lemma_len();
        lemma_seq_bytes_len(self.mac@, true);
    }

    proof fn lemma_injective(a: Self, b: Self) {
        a.low.lemma_len();
        lemma_seq_bytes_len(a.mac@, true);
        b.low.lemma_len();
        lemma_seq_bytes_len(b.mac@, true);
        if a.le_bytes() == b.le_bytes() {
            let sa = a.le_bytes();
            let sb = b.le_bytes();
            assert(seq_bytes(a.mac@, true) =~= sa.subrange(4, 0xa));
            assert(seq_bytes(b.mac@, true) =~= sb.subrange(4, 0xa));
            assert(a.low.be_bytes() =~= sa.subrange(0, 4));
            assert(b.low.be_bytes() =~= sb.subrange(0, 4));
            assert(a.low.be_bytes() =~= sa.subrange(0, 4));
            assert(b.low.be_bytes() =~= sb.subrange(0, 4));
            ProfileIdLow::lemma_injective(a.low, b.low);
            lemma_seq_bytes_injective(a.mac@, b.mac@, true);
            assert(a.mac =~= b.mac);
            assert(a == b);
        }
    }

    exec fn byte_len() -> (n: usize) {
        0xa
    }

    exec fn write_le_bytes(&self, bytes: &mut [u8], pos: usize) {
        let buf_len = bytes.len();
        proof {
            assert(buf_len == bytes@.len());
            self.low.lemma_len();
            lemma_seq_bytes_len(self.mac@, true);
        }
        self.low.write_be_bytes(bytes, pos);
        write_items(self.mac.as_slice(), bytes, pos + 4, true);
        proof {
            lemma_spliced_append(old(bytes)@, pos as int, self.low.be_bytes(), seq_bytes(self.mac@, true));
        }
    }

    exec fn read_le_bytes(bytes: &[u8], pos: usize) -> (r: Self) {
        let buf_len = bytes.len();
        proof {
            assert(buf_len == bytes@.len());
        }
        let low = ProfileIdLow::read_be_bytes(bytes, pos);
        let mac: [u8; 6] = read_array(bytes, pos + 4, true);
        let r = ProfileId { low, mac };
        proof {
            assert(r.low.be_bytes() + seq_bytes(r.mac@, true) =~= bytes@.subrange(pos as int, pos + 0xa));
        }
        r
    }

    exec fn write_be_bytes(&self, bytes: &mut [u8], pos: usize) {
        self.write_le_bytes(bytes, pos);
    }

    exec fn read_be_bytes(bytes: &[u8], pos: usize) -> (r: Self) {
        Self::read_le_bytes(bytes, pos)
    }
}

impl ByteStruct for ProfileId {
}

#[derive(Clone, Copy, Debug, PartialEq, Eq, Default)]
pub struct ProfileGeneral {
    pub sex: u16,
    pub birth_month: u16,
    pub birth_day: u16,
    pub favorite_color: u16,
    pub favorite: u16,
    pub padding: u16,
}

impl ProfileGeneral {
    /// The fields packed into `raw`, first field in the lowest bits.
    pub open spec fn spec_from_raw(raw: u16) -> ProfileGeneral {
        ProfileGeneral {
            sex: raw & 0x1,
            birth_month: (raw >> 1) & 0xf,
            birth_day: (raw >> 5) & 0x1f,
            favorite_color: (raw >> 10) & 0xf,
            favorite: (raw >> 14) & 0x1,
            padding: (raw >> 15) & 0x1,
        }
    }

    /// The raw value holding the fields, first field in the lowest bits.
    pub open spec fn spec_to_raw(self) -> u16 {
        self.sex | (self.birth_month << 1) | (self.birth_day << 5) | (self.favorite_color << 10) | (self.favorite << 14) | (self.padding << 15)
    }

    pub exec fn from_raw(raw: u16) -> (r: ProfileGeneral)
        ensures
            r == ProfileGeneral::spec_from_raw(raw),
    {
        ProfileGeneral {
            sex: raw & 0x1,
            birth_month: (raw >> 1) & 0xf,
            birth_day: (raw >> 5) & 0x1f,
            favorite_color: (raw >> 10) & 0xf,
            favorite: (raw >> 14) & 0x1,
            padding: (raw >> 15) & 0x1,
        }
    }

    pub exec fn to_raw(&self) -> (r: u16)
        ensures
            r == self.spec_to_raw(),
    {
        self.sex | (self.birth_month << 1) | (self.birth_day << 5) | (self.favorite_color << 10) | (self.favorite << 14) | (self.padding << 15)
    }

    /// Unpacking any raw value and packing the fields again gives the
    /// raw value back, and the unpacked fields each fit their width.
    pub proof fn lemma_raw_round_trip(raw: u16)
        ensures
            ProfileGeneral::spec_from_raw(raw).wf(),
            ProfileGeneral::spec_from_raw(raw).spec_to_raw() == raw,
    {
        assert(((raw & 0x1) | (((raw >> 1) & 0xf) << 1) | (((raw >> 5) & 0x1f) << 5) | (((raw >> 10) & 0xf) << 10) | (((raw >> 14) & 0x1) << 14) | (((raw >> 15) & 0x1) << 15)) == raw && raw & 0x1 < 0x2 && (raw >> 1) & 0xf < 0x10 && (raw >> 5) & 0x1f < 0x20 && (raw >> 10) & 0xf < 0x10 && (raw >> 14) & 0x1 < 0x2 && (raw >> 15) & 0x1 < 0x2) by (bit_vector);
    }

    /// Packing well-formed fields and unpacking them returns each field.
    pub proof fn lemma_field_round_trip(v: ProfileGeneral)
        requires
            v.wf(),
        ensures
            ProfileGeneral::spec_from_raw(v.spec_to_raw()) == v,
    {
        let f_sex = v.sex;
        let f_birth_month = v.birth_month;
        let f_birth_day = v.birth_day;
        let f_favorite_color = v.favorite_color;
        let f_favorite = v.favorite;
        let f_padding = v.padding;
        assert((f_sex | (f_birth_month << 1) | (f_birth_day << 5) | (f_favorite_color << 10) | (f_favorite << 14) | (f_padding << 15)) & 0x1 == f_sex && ((f_sex | (f_birth_month << 1) | (f_birth_day << 5) | (f_favorite_color << 10) | (f_favorite << 14) | (f_padding << 15)) >> 1) & 0xf == f_birth_month && ((f_sex | (f_birth_month << 1) | (f_birth_day << 5) | (f_favorite_color << 10) | (f_favorite << 14) | (f_padding << 15)) >> 5) & 0x1f == f_birth_day && ((f_sex | (f_birth_month << 1) | (f_birth_day << 5) | (f_favorite_color << 10) | (f_favorite << 14) | (f_padding << 15)) >> 10) & 0xf == f_favorite_color && ((f_sex | (f_birth_month << 1) | (f_birth_day << 5) | (f_favorite_color << 10) | (f_favorite << 14) | (f_padding << 15)) >> 14) & 0x1 == f_favorite && ((f_sex | (f_birth_month << 1) | (f_birth_day << 5) | (f_favorite_color << 10) | (f_favorite << 14) | (f_padding << 15)) >> 15) & 0x1 == f_padding) by (bit_vector)
            requires
                f_sex < 0x2,
                f_birth_month < 0x10,
                f_birth_day < 0x20,
                f_favorite_color < 0x10,
                f_favorite < 0x2,
                f_padding < 0x2,
        ;
    }
}

impl ByteStructImpl for ProfileGeneral {
    open spec fn spec_byte_len() -> nat {
        2
    }

    open spec fn wf(&self) -> bool {
        self.sex < 0x2 && self.birth_month < 0x10 && self.birth_day < 0x20 && self.favorite_color < 0x10 && self.favorite < 0x2 && self.padding < 0x2
    }

    open spec fn le_bytes(&self) -> Seq<u8> {
        self.spec_to_raw().le_bytes()
    }

    open spec fn be_bytes(&self) -> Seq<u8> {
        self.spec_to_raw().be_bytes()
    }

    proof fn lemma_len(&self) {
    }

    proof fn lemma_injective(a: Self, b: Self) {
        u16::lemma_injective(a.spec_to_raw(), b.spec_to_raw());
        ProfileGeneral::lemma_field_round_trip(a);
        ProfileGeneral::lemma_field_round_trip(b);
    }

    exec fn byte_len() -> (n: usize) {
        2
    }

    exec fn write_le_bytes(&self, bytes: &mut [u8], pos: usize) {
        self.to_raw().write_le_bytes(bytes, pos);
    }

    exec fn read_le_bytes(bytes: &[u8], pos: usize) -> (r: Self) {
        let raw = u16::read_le_bytes(bytes, pos);
        proof {
            ProfileGeneral::lemma_raw_round_trip(raw);
        }
        ProfileGeneral::from_raw(raw)
    }

    exec fn write_be_bytes(&self, bytes: &mut [u8], pos: usize) {
        self.to_raw().write_be_bytes(bytes, pos);
    }

    exec fn read_be_bytes(bytes: &[u8], pos: usize) -> (r: Self) {
        let raw = u16::read_be_bytes(bytes, pos);
        proof {
            ProfileGeneral::lemma_raw_round_trip(raw);
        }
        ProfileGeneral::from_raw(raw)
    }
}

#[derive(Clone, Copy, Debug, PartialEq, Eq, Default)]
pub struct ProfileFace {
    pub disable_sharing: u16,
    pub style: u16,
    pub color: u16,
    pub wrinkle: u16,
    pub makeup: u16,
}

impl ProfileFace {
    /// The fields packed into `raw`, first field in the lowest bits.
    pub open spec fn spec_from_raw(raw: u16) -> ProfileFace {
        ProfileFace {
            disable_sharing: raw & 0x1,
            style: (raw >> 1) & 0xf,
            color: (raw >> 5) & 0x7,
            wrinkle: (raw >> 8) & 0xf,
            makeup: (raw >> 12) & 0xf,
        }
    }

    /// The raw value holding the fields, first field in the lowest bits.
    pub open spec fn spec_to_raw(self) -> u16 {
        self.disable_sharing | (self.style << 1) | (self.color << 5) | (self.wrinkle << 8) | (self.makeup << 12)
    }

    pub exec fn from_raw(raw: u16) -> (r: ProfileFace)
        ensures
            r == ProfileFace::spec_from_raw(raw),
    {
        ProfileFace {
            disable_sharing: raw & 0x1,
            style: (raw >> 1) & 0xf,
            color: (raw >> 5) & 0x7,
            wrinkle: (raw >> 8) & 0xf,
            makeup: (raw >> 12) & 0xf,
        }
    }

    pub exec fn to_raw(&self) -> (r: u16)
        ensures
            r == self.spec_to_raw(),
    {
        self.disable_sharing | (self.style << 1) | (self.color << 5) | (self.wrinkle << 8) | (self.makeup << 12)
    }

    /// Unpacking any raw value and packing the fields again gives the
    /// raw value back, and the unpacked fields each fit their width.
    pub proof fn lemma_raw_round_trip(raw: u16)
        ensures
            ProfileFace::spec_from_raw(raw).wf(),
            ProfileFace::spec_from_raw(raw).spec_to_raw() == raw,
    {
        assert(((raw & 0x1) | (((raw >> 1) & 0xf) << 1) | (((raw >> 5) & 0x7) << 5) | (((raw >> 8) & 0xf) << 8) | (((raw >> 12) & 0xf) << 12)) == raw && raw & 0x1 < 0x2 && (raw >> 1) & 0xf < 0x10 && (raw >> 5) & 0x7 < 0x8 && (raw >> 8) & 0xf < 0x10 && (raw >> 12) & 0xf < 0x10) by (bit_vector);
    }

    /// Packing well-formed fields and unpacking them returns each field.
    pub proof fn lemma_field_round_trip(v: ProfileFace)
        requires
            v.wf(),
        ensures
            ProfileFace::spec_from_raw(v.spec_to_raw()) == v,
    {
        let f_disable_sharing = v.disable_sharing;
        let f_style = v.style;
        let f_color = v.color;
        let f_wrinkle = v.wrinkle;
        let f_makeup = v.makeup;
        assert((f_disable_sharing | (f_style << 1) | (f_color << 5) | (f_wrinkle << 8) | (f_makeup << 12)) & 0x1 == f_disable_sharing && ((f_disable_sharing | (f_style << 1) | (f_color << 5) | (f_wrinkle << 8) | (f_makeup << 12)) >> 1) & 0xf == f_style && ((f_disable_sharing | (f_style << 1) | (f_color << 5) | (f_wrinkle << 8) | (f_makeup << 12)) >> 5) & 0x7 == f_color && ((f_disable_sharing | (f_style << 1) | (f_color << 5) | (f_wrinkle << 8) | (f_makeup << 12)) >> 8) & 0xf == f_wrinkle && ((f_disable_sharing | (f_style << 1) | (f_color << 5) | (f_wrinkle << 8) | (f_makeup << 12)) >> 12) & 0xf == f_makeup) by (bit_vector)
            requires
                f_disable_sharing < 0x2,
                f_style < 0x10,
                f_color < 0x8,
                f_wrinkle < 0x10,
                f_makeup < 0x10,
        ;
    }
}

impl ByteStructImpl for ProfileFace {
    open spec fn spec_byte_len() -> nat {
        2
    }

    open spec fn wf(&self) -> bool {
        self.disable_sharing < 0x2 && self.style < 0x10 && self.color < 0x8 && self.wrinkle < 0x10 && self.makeup < 0x10
    }

    open spec fn le_bytes(&self) -> Seq<u8> {
        self.spec_to_raw().le_bytes()
    }

    open spec fn be_bytes(&self) -> Seq<u8> {
        self.spec_to_raw().be_bytes()
    }

    proof fn lemma_len(&self) {
    }

    proof fn lemma_injective(a: Self, b: Self) {
        u16::lemma_injective(a.spec_to_raw(), b.spec_to_raw());
        ProfileFace::lemma_field_round_trip(a);
        ProfileFace::lemma_field_round_trip(b);
    }

    exec fn byte_len() -> (n: usize) {
        2
    }

    exec fn write_le_bytes(&self, bytes: &mut [u8], pos: usize) {
        self.to_raw().write_le_bytes(bytes, pos);
    }

    exec fn read_le_bytes(bytes: &[u8], pos: usize) -> (r: Self) {
        let raw = u16::read_le_bytes(bytes, pos);
        proof {
            ProfileFace::lemma_raw_round_trip(raw);
        }
        ProfileFace::from_raw(raw)
    }

    exec fn write_be_bytes(&self, bytes: &mut [u8], pos: usize) {
        self.to_raw().write_be_bytes(bytes, pos);
    }

    exec fn read_be_bytes(bytes: &[u8], pos: usize) -> (r: Self) {
        let raw = u16::read_be_bytes(bytes, pos);
        proof {
            ProfileFace::lemma_raw_round_trip(raw);
        }
        ProfileFace::from_raw(raw)
    }
}

#[derive(Clone, Copy, Debug, PartialEq, Eq, Default)]
pub struct ProfileHair {
    pub style: u16,
    pub color: u16,
    pub flip: u16,
    pub padding: u16,
}

impl ProfileHair {
    /// The fields packed into `raw`, first field in the lowest bits.
    pub open spec fn spec_from_raw(raw: u16) -> ProfileHair {
        ProfileHair {
            style: raw & 0xff,
            color: (raw >> 8) & 0x7,
            flip: (raw >> 11) & 0x1,
            padding: (raw >> 12) & 0xf,
        }
    }

    /// The raw value holding the fields, first field in the lowest bits.
    pub open spec fn spec_to_raw(self) -> u16 {
        self.style | (self.color << 8) | (self.flip << 11) | (self.padding << 12)
    }

    pub exec fn from_raw(raw: u16) -> (r: ProfileHair)
        ensures
            r == ProfileHair::spec_from_raw(raw),
    {
        ProfileHair {
            style: raw & 0xff,
            color: (raw >> 8) & 0x7,
            flip: (raw >> 11) & 0x1,
            padding: (raw >> 12) & 0xf,
        }
    }

    pub exec fn to_raw(&self) -> (r: u16)
        ensures
            r == self.spec_to_raw(),
    {
        self.style | (self.color << 8) | (self.flip << 11) | (self.padding << 12)
    }

    /// Unpacking any raw value and packing the fields again gives the
    /// raw value back, and the unpacked fields each fit their width.
    pub proof fn lemma_raw_round_trip(raw: u16)
        ensures
            ProfileHair::spec_from_raw(raw).wf(),
            ProfileHair::spec_from_raw(raw).spec_to_raw() == raw,
    {
        assert(((raw & 0xff) | (((raw >> 8) & 0x7) << 8) | (((raw >> 11) & 0x1) << 11) | (((raw >> 12) & 0xf) << 12)) == raw && raw & 0xff < 0x100 && (raw >> 8) & 0x7 < 0x8 && (raw >> 11) & 0x1 < 0x2 && (raw >> 12) & 0xf < 0x10) by (bit_vector);
    }

    /// Packing well-formed fields and unpacking them returns each field.
    pub proof fn lemma_field_round_trip(v: ProfileHair)
        requires
            v.wf(),
        ensures
            ProfileHair::spec_from_raw(v.spec_to_raw()) == v,
    {
        let f_style = v.style;
        let f_color = v.color;
        let f_flip = v.flip;
        let f_padding = v.padding;
        assert((f_style | (f_color << 8) | (f_flip << 11) | (f_padding << 12)) & 0xff == f_style && ((f_style | (f_color << 8) | (f_flip << 11) | (f_padding << 12)) >> 8) & 0x7 == f_color && ((f_style | (f_color << 8) | (f_flip << 11) | (f_padding << 12)) >> 11) & 0x1 == f_flip && ((f_style | (f_color << 8) | (f_flip << 11) | (f_padding << 12)) >> 12) & 0xf == f_padding) by (bit_vector)
            requires
                f_style < 0x100,
                f_color < 0x8,
                f_flip < 0x2,
                f_padding < 0x10,
        ;
    }
}

impl ByteStructImpl for ProfileHair {
    open spec fn spec_byte_len() -> nat {
        2
    }

    open spec fn wf(&self) -> bool {
        self.style < 0x100 && self.color < 0x8 && self.flip < 0x2 && self.padding < 0x10
    }

    open spec fn le_bytes(&self) -> Seq<u8> {
        self.spec_to_raw().le_bytes()
    }

    open spec fn be_bytes(&self) -> Seq<u8> {
        self.spec_to_raw().be_bytes()
    }

    proof fn lemma_len(&self) {
    }

    proof fn lemma_injective(a: Self, b: Self) {
        u16::lemma_injective(a.spec_to_raw(), b.spec_to_raw());
        ProfileHair::lemma_field_round_trip(a);
        ProfileHair::lemma_field_round_trip(b);
    }

    exec fn byte_len() -> (n: usize) {
        2
    }

    exec fn write_le_bytes(&self, bytes: &mut [u8], pos: usize) {
        self.to_raw().write_le_bytes(bytes, pos);
    }

    exec fn read_le_bytes(bytes: &[u8], pos: usize) -> (r: Self) {
        let raw = u16::read_le_bytes(bytes, pos);
        proof {
            ProfileHair::lemma_raw_round_trip(raw);
        }
        ProfileHair::from_raw(raw)
    }

    exec fn write_be_bytes(&self, bytes: &mut [u8], pos: usize) {
        self.to_raw().write_be_bytes(bytes, pos);
    }

    exec fn read_be_bytes(bytes: &[u8], pos: usize) -> (r: Self) {
        let raw = u16::read_be_bytes(bytes, pos);
        proof {
            ProfileHair::lemma_raw_round_trip(raw);
        }
        ProfileHair::from_raw(raw)
    }
}

#[derive(Clone, Copy, Debug, PartialEq, Eq, Default)]
pub struct ProfileEye {
    pub style: u32,
    pub color: u32,
    pub scale: u32,
    pub y_scale: u32,
    pub rotation: u32,
    pub x: u32,
    pub y: u32,
    pub padding: u32,
}

impl ProfileEye {
    /// The fields packed into `raw`, first field in the lowest bits.
    pub open spec fn spec_from_raw(raw: u32) -> ProfileEye {
        ProfileEye {
            style: raw & 0x3f,
            color: (raw >> 6) & 0x7,
            scale: (raw >> 9) & 0xf,
            y_scale: (raw >> 13) & 0x7,
            rotation: (raw >> 16) & 0x1f,
            x: (raw >> 21) & 0xf,
            y: (raw >> 25) & 0x1f,
            padding: (raw >> 30) & 0x3,
        }
    }

    /// The raw value holding the fields, first field in the lowest bits.
    pub open spec fn spec_to_raw(self) -> u32 {
        self.style | (self.color << 6) | (self.scale << 9) | (self.y_scale << 13) | (self.rotation << 16) | (self.x << 21) | (self.y << 25) | (self.padding << 30)
    }

    pub exec fn from_raw(raw: u32) -> (r: ProfileEye)
        ensures
            r == ProfileEye::spec_from_raw(raw),
    {
        ProfileEye {
            style: raw & 0x3f,
            color: (raw >> 6) & 0x7,
            scale: (raw >> 9) & 0xf,
            y_scale: (raw >> 13) & 0x7,
            rotation: (raw >> 16) & 0x1f,
            x: (raw >> 21) & 0xf,
            y: (raw >> 25) & 0x1f,
            padding: (raw >> 30) & 0x3,
        }
    }

    pub exec fn to_raw(&self) -> (r: u32)
        ensures
            r == self.spec_to_raw(),
    {
        self.style | (self.color << 6) | (self.scale << 9) | (self.y_scale << 13) | (self.rotation << 16) | (self.x << 21) | (self.y << 25) | (self.padding << 30)
    }

    /// Unpacking any raw value and packing the fields again gives the
    /// raw value back, and the unpacked fields each fit their width.
    pub proof fn lemma_raw_round_trip(raw: u32)
        ensures
            ProfileEye::spec_from_raw(raw).wf(),
            ProfileEye::spec_from_raw(raw).spec_to_raw() == raw,
    {
        assert(((raw & 0x3f) | (((raw >> 6) & 0x7) << 6) | (((raw >> 9) & 0xf) << 9) | (((raw >> 13) & 0x7) << 13) | (((raw >> 16) & 0x1f) << 16) | (((raw >> 21) & 0xf) << 21) | (((raw >> 25) & 0x1f) << 25) | (((raw >> 30) & 0x3) << 30)) == raw && raw & 0x3f < 0x40 && (raw >> 6) & 0x7 < 0x8 && (raw >> 9) & 0xf < 0x10 && (raw >> 13) & 0x7 < 0x8 && (raw >> 16) & 0x1f < 0x20 && (raw >> 21) & 0xf < 0x10 && (raw >> 25) & 0x1f < 0x20 && (raw >> 30) & 0x3 < 0x4) by (bit_vector);
    }

    /// Packing well-formed fields and unpacking them returns each field.
    pub proof fn lemma_field_round_trip(v: ProfileEye)
        requires
            v.wf(),
        ensures
            ProfileEye::spec_from_raw(v.spec_to_raw()) == v,
    {
        let f_style = v.style;
        let f_color = v.color;
        let f_scale = v.scale;
        let f_y_scale = v.y_scale;
        let f_rotation = v.rotation;
        let f_x = v.x;
        let f_y = v.y;
        let f_padding = v.padding;
        assert((f_style | (f_color << 6) | (f_scale << 9) | (f_y_scale << 13) | (f_rotation << 16) | (f_x << 21) | (f_y << 25) | (f_padding << 30)) & 0x3f == f_style && ((f_style | (f_color << 6) | (f_scale << 9) | (f_y_scale << 13) | (f_rotation << 16) | (f_x << 21) | (f_y << 25) | (f_padding << 30)) >> 6) & 0x7 == f_color && ((f_style | (f_color << 6) | (f_scale << 9) | (f_y_scale << 13) | (f_rotation << 16) | (f_x << 21) | (f_y << 25) | (f_padding << 30)) >> 9) & 0xf == f_scale && ((f_style | (f_color << 6) | (f_scale << 9) | (f_y_scale << 13) | (f_rotation << 16) | (f_x << 21) | (f_y << 25) | (f_padding << 30)) >> 13) & 0x7 == f_y_scale && ((f_style | (f_color << 6) | (f_scale << 9) | (f_y_scale << 13) | (f_rotation << 16) | (f_x << 21) | (f_y << 25) | (f_padding << 30)) >> 16) & 0x1f == f_rotation && ((f_style | (f_color << 6) | (f_scale << 9) | (f_y_scale << 13) | (f_rotation << 16) | (f_x << 21) | (f_y << 25) | (f_padding << 30)) >> 21) & 0xf == f_x && ((f_style | (f_color << 6) | (f_scale << 9) | (f_y_scale << 13) | (f_rotation << 16) | (f_x << 21) | (f_y << 25) | (f_padding << 30)) >> 25) & 0x1f == f_y && ((f_style | (f_color << 6) | (f_scale << 9) | (f_y_scale << 13) | (f_rotation << 16) | (f_x << 21) | (f_y << 25) | (f_padding << 30)) >> 30) & 0x3 == f_padding) by (bit_vector)
            requires
                f_style < 0x40,
                f_color < 0x8,
                f_scale < 0x10,
                f_y_scale < 0x8,
                f_rotation < 0x20,
                f_x < 0x10,
                f_y < 0x20,
                f_padding < 0x4,
        ;
    }
}

impl ByteStructImpl for ProfileEye {
    open spec fn spec_byte_len() -> nat {
        4
    }

    open spec fn wf(&self) -> bool {
        self.style < 0x40 && self.color < 0x8 && self.scale < 0x10 && self.y_scale < 0x8 && self.rotation < 0x20 && self.x < 0x10 && self.y < 0x20 && self.padding < 0x4
    }

    open spec fn le_bytes(&self) -> Seq<u8> {
        self.spec_to_raw().le_bytes()
    }

    open spec fn be_bytes(&self) -> Seq<u8> {
        self.spec_to_raw().be_bytes()
    }

    proof fn lemma_len(&self) {
    }

    proof fn lemma_injective(a: Self, b: Self) {
        u32::lemma_injective(a.spec_to_raw(), b.spec_to_raw());
        ProfileEye::lemma_field_round_trip(a);
        ProfileEye::lemma_field_round_trip(b);
    }

    exec fn byte_len() -> (n: usize) {
        4
    }

    exec fn write_le_bytes(&self, bytes: &mut [u8], pos: usize) {
        self.to_raw().write_le_bytes(bytes, pos);
    }

    exec fn read_le_bytes(bytes: &[u8], pos: usize) -> (r: Self) {
        let raw = u32::read_le_bytes(bytes, pos);
        proof {
            ProfileEye::lemma_raw_round_trip(raw);
        }
        ProfileEye::from_raw(raw)
    }

    exec fn write_be_bytes(&self, bytes: &mut [u8], pos: usize) {
        self.to_raw().write_be_bytes(bytes, pos);
    }

    exec fn read_be_bytes(bytes: &[u8], pos: usize) -> (r: Self) {
        let raw = u32::read_be_bytes(bytes, pos);
        proof {
            ProfileEye::lemma_raw_round_trip(raw);
        }
        ProfileEye::from_raw(raw)
    }
}

#[derive(Clone, Copy, Debug, PartialEq, Eq, Default)]
pub struct ProfileEyebrow {
    pub style: u32,
    pub color: u32,
    pub scale: u32,
    pub y_scale: u32,
    pub padding: u32,
    pub rotation: u32,
    pub x: u32,
    pub y: u32,
    pub padding2: u32,
}

impl ProfileEyebrow {
    /// The fields packed into `raw`, first field in the lowest bits.
    pub open spec fn spec_from_raw(raw: u32) -> ProfileEyebrow {
        ProfileEyebrow {
            style: raw & 0x1f,
            color: (raw >> 5) & 0x7,
            scale: (raw >> 8) & 0xf,
            y_scale: (raw >> 12) & 0x7,
            padding: (raw >> 15) & 0x1,
            rotation: (raw >> 16) & 0x1f,
            x: (raw >> 21) & 0xf,
            y: (raw >> 25) & 0x1f,
            padding2: (raw >> 30) & 0x3,
        }
    }

    /// The raw value holding the fields, first field in the lowest bits.
    pub open spec fn spec_to_raw(self) -> u32 {
        self.style | (self.color << 5) | (self.scale << 8) | (self.y_scale << 12) | (self.padding << 15) | (self.rotation << 16) | (self.x << 21) | (self.y << 25) | (self.padding2 << 30)
    }

    pub exec fn from_raw(raw: u32) -> (r: ProfileEyebrow)
        ensures
            r == ProfileEyebrow::spec_from_raw(raw),
    {
        ProfileEyebrow {
            style: raw & 0x1f,
            color: (raw >> 5) & 0x7,
            scale: (raw >> 8) & 0xf,
            y_scale: (raw >> 12) & 0x7,
            padding: (raw >> 15) & 0x1,
            rotation: (raw >> 16) & 0x1f,
            x: (raw >> 21) & 0xf,
            y: (raw >> 25) & 0x1f,
            padding2: (raw >> 30) & 0x3,
        }
    }

    pub exec fn to_raw(&self) -> (r: u32)
        ensures
            r == self.spec_to_raw(),
    {
        self.style | (self.color << 5) | (self.scale << 8) | (self.y_scale << 12) | (self.padding << 15) | (self.rotation << 16) | (self.x << 21) | (self.y << 25) | (self.padding2 << 30)
    }

    /// Unpacking any raw value and packing the fields again gives the
    /// raw value back, and the unpacked fields each fit their width.
    pub proof fn lemma_raw_round_trip(raw: u32)
        ensures
            ProfileEyebrow::spec_from_raw(raw).wf(),
            ProfileEyebrow::spec_from_raw(raw).spec_to_raw() == raw,
    {
        assert(((raw & 0x1f) | (((raw >> 5) & 0x7) << 5) | (((raw >> 8) & 0xf) << 8) | (((raw >> 12) & 0x7) << 12) | (((raw >> 15) & 0x1) << 15) | (((raw >> 16) & 0x1f) << 16) | (((raw >> 21) & 0xf) << 21) | (((raw >> 25) & 0x1f) << 25) | (((raw >> 30) & 0x3) << 30)) == raw && raw & 0x1f < 0x20 && (raw >> 5) & 0x7 < 0x8 && (raw >> 8) & 0xf < 0x10 && (raw >> 12) & 0x7 < 0x8 && (raw >> 15) & 0x1 < 0x2 && (raw >> 16) & 0x1f < 0x20 && (raw >> 21) & 0xf < 0x10 && (raw >> 25) & 0x1f < 0x20 && (raw >> 30) & 0x3 < 0x4) by (bit_vector);
    }

    /// Packing well-formed fields and unpacking them returns each field.
    pub proof fn lemma_field_round_trip(v: ProfileEyebrow)
        requires
            v.wf(),
        ensures
            ProfileEyebrow::spec_from_raw(v.spec_to_raw()) == v,
    {
        let f_style = v.style;
        let f_color = v.color;
        let f_scale = v.scale;
        let f_y_scale = v.y_scale;
        let f_padding = v.padding;
        let f_rotation = v.rotation;
        let f_x = v.x;
        let f_y = v.y;
        let f_padding2 = v.padding2;
        assert((f_style | (f_color << 5) | (f_scale << 8) | (f_y_scale << 12) | (f_padding << 15) | (f_rotation << 16) | (f_x << 21) | (f_y << 25) | (f_padding2 << 30)) & 0x1f == f_style && ((f_style | (f_color << 5) | (f_scale << 8) | (f_y_scale << 12) | (f_padding << 15) | (f_rotation << 16) | (f_x << 21) | (f_y << 25) | (f_padding2 << 30)) >> 5) & 0x7 == f_color && ((f_style | (f_color << 5) | (f_scale << 8) | (f_y_scale << 12) | (f_padding << 15) | (f_rotation << 16) | (f_x << 21) | (f_y << 25) | (f_padding2 << 30)) >> 8) & 0xf == f_scale && ((f_style | (f_color << 5) | (f_scale << 8) | (f_y_scale << 12) | (f_padding << 15) | (f_rotation << 16) | (f_x << 21) | (f_y << 25) | (f_padding2 << 30)) >> 12) & 0x7 == f_y_scale && ((f_style | (f_color << 5) | (f_scale << 8) | (f_y_scale << 12) | (f_padding << 15) | (f_rotation << 16) | (f_x << 21) | (f_y << 25) | (f_padding2 << 30)) >> 15) & 0x1 == f_padding && ((f_style | (f_color << 5) | (f_scale << 8) | (f_y_scale << 12) | (f_padding << 15) | (f_rotation << 16) | (f_x << 21) | (f_y << 25) | (f_padding2 << 30)) >> 16) & 0x1f == f_rotation && ((f_style | (f_color << 5) | (f_scale << 8) | (f_y_scale << 12) | (f_padding << 15) | (f_rotation << 16) | (f_x << 21) | (f_y << 25) | (f_padding2 << 30)) >> 21) & 0xf == f_x && ((f_style | (f_color << 5) | (f_scale << 8) | (f_y_scale << 12) | (f_padding << 15) | (f_rotation << 16) | (f_x << 21) | (f_y << 25) | (f_padding2 << 30)) >> 25) & 0x1f == f_y && ((f_style | (f_color << 5) | (f_scale << 8) | (f_y_scale << 12) | (f_padding << 15) | (f_rotation << 16) | (f_x << 21) | (f_y << 25) | (f_padding2 << 30)) >> 30) & 0x3 == f_padding2) by (bit_vector)
            requires
                f_style < 0x20,
                f_color < 0x8,
                f_scale < 0x10,
                f_y_scale < 0x8,
                f_padding < 0x2,
                f_rotation < 0x20,
                f_x < 0x10,
                f_y < 0x20,
                f_padding2 < 0x4,
        ;
    }
}

impl ByteStructImpl for ProfileEyebrow {
    open spec fn spec_byte_len() -> nat {
        4
    }

    open spec fn wf(&self) -> bool {
        self.style < 0x20 && self.color < 0x8 && self.scale < 0x10 && self.y_scale < 0x8 && self.padding < 0x2 && self.rotation < 0x20 && self.x < 0x10 && self.y < 0x20 && self.padding2 < 0x4
    }

    open spec fn le_bytes(&self) -> Seq<u8> {
        self.spec_to_raw().le_bytes()
    }

    open spec fn be_bytes(&self) -> Seq<u8> {
        self.spec_to_raw().be_bytes()
    }

    proof fn lemma_len(&self) {
    }

    proof fn lemma_injective(a: Self, b: Self) {
        u32::lemma_injective(a.spec_to_raw(), b.spec_to_raw());
        ProfileEyebrow::lemma_field_round_trip(a);
        ProfileEyebrow::lemma_field_round_trip(b);
    }

    exec fn byte_len() -> (n: usize) {
        4
    }

    exec fn write_le_bytes(&self, bytes: &mut [u8], pos: usize) {
        self.to_raw().write_le_bytes(bytes, pos);
    }

    exec fn read_le_bytes(bytes: &[u8], pos: usize) -> (r: Self) {
        let raw = u32::read_le_bytes(bytes, pos);
        proof {
            ProfileEyebrow::lemma_raw_round_trip(raw);
        }
        ProfileEyebrow::from_raw(raw)
    }

    exec fn write_be_bytes(&self, bytes: &mut [u8], pos: usize) {
        self.to_raw().write_be_bytes(bytes, pos);
    }

    exec fn read_be_bytes(bytes: &[u8], pos: usize) -> (r: Self) {
        let raw = u32::read_be_bytes(bytes, pos);
        proof {
            ProfileEyebrow::lemma_raw_round_trip(raw);
        }
        ProfileEyebrow::from_raw(raw)
    }
}

#[derive(Clone, Copy, Debug, PartialEq, Eq, Default)]
pub struct ProfileNose {
    pub style: u16,
    pub scale: u16,
    pub y: u16,
    pub padding: u16,
}

impl ProfileNose {
    /// The fields packed into `raw`, first field in the lowest bits.
    pub open spec fn spec_from_raw(raw: u16) -> ProfileNose {
        ProfileNose {
            style: raw & 0x1f,
            scale: (raw >> 5) & 0xf,
            y: (raw >> 9) & 0x1f,
            padding: (raw >> 14) & 0x3,
        }
    }

    /// The raw value holding the fields, first field in the lowest bits.
    pub open spec fn spec_to_raw(self) -> u16 {
        self.style | (self.scale << 5) | (self.y << 9) | (self.padding << 14)
    }

    pub exec fn from_raw(raw: u16) -> (r: ProfileNose)
        ensures
            r == ProfileNose::spec_from_raw(raw),
    {
        ProfileNose {
            style: raw & 0x1f,
            scale: (raw >> 5) & 0xf,
            y: (raw >> 9) & 0x1f,
            padding: (raw >> 14) & 0x3,
        }
    }

    pub exec fn to_raw(&self) -> (r: u16)
        ensures
            r == self.spec_to_raw(),
    {
        self.style | (self.scale << 5) | (self.y << 9) | (self.padding << 14)
    }

    /// Unpacking any raw value and packing the fields again gives the
    /// raw value back, and the unpacked fields each fit their width.
    pub proof fn lemma_raw_round_trip(raw: u16)
        ensures
            ProfileNose::spec_from_raw(raw).wf(),
            ProfileNose::spec_from_raw(raw).spec_to_raw() == raw,
    {
        assert(((raw & 0x1f) | (((raw >> 5) & 0xf) << 5) | (((raw >> 9) & 0x1f) << 9) | (((raw >> 14) & 0x3) << 14)) == raw && raw & 0x1f < 0x20 && (raw >> 5) & 0xf < 0x10 && (raw >> 9) & 0x1f < 0x20 && (raw >> 14) & 0x3 < 0x4) by (bit_vector);
    }

    /// Packing well-formed fields and unpacking them returns each field.
    pub proof fn lemma_field_round_trip(v: ProfileNose)
        requires
            v.wf(),
        ensures
            ProfileNose::spec_from_raw(v.spec_to_raw()) == v,
    {
        let f_style = v.style;
        let f_scale = v.scale;
        let f_y = v.y;
        let f_padding = v.padding;
        assert((f_style | (f_scale << 5) | (f_y << 9) | (f_padding << 14)) & 0x1f == f_style && ((f_style | (f_scale << 5) | (f_y << 9) | (f_padding << 14)) >> 5) & 0xf == f_scale && ((f_style | (f_scale << 5) | (f_y << 9) | (f_padding << 14)) >> 9) & 0x1f == f_y && ((f_style | (f_scale << 5) | (f_y << 9) | (f_padding << 14)) >> 14) & 0x3 == f_padding) by (bit_vector)
            requires
                f_style < 0x20,
                f_scale < 0x10,
                f_y < 0x20,
                f_padding < 0x4,
        ;
    }
}

impl ByteStructImpl for ProfileNose {
    open spec fn spec_byte_len() -> nat {
        2
    }

    open spec fn wf(&self) -> bool {
        self.style < 0x20 && self.scale < 0x10 && self.y < 0x20 && self.padding < 0x4
    }

    open spec fn le_bytes(&self) -> Seq<u8> {
        self.spec_to_raw().le_bytes()
    }

    open spec fn be_bytes(&self) -> Seq<u8> {
        self.spec_to_raw().be_bytes()
    }

    proof fn lemma_len(&self) {
    }

    proof fn lemma_injective(a: Self, b: Self) {
        u16::lemma_injective(a.spec_to_raw(), b.spec_to_raw());
        ProfileNose::lemma_field_round_trip(a);
        ProfileNose::lemma_field_round_trip(b);
    }

    exec fn byte_len() -> (n: usize) {
        2
    }

    exec fn write_le_bytes(&self, bytes: &mut [u8], pos: usize) {
        self.to_raw().write_le_bytes(bytes, pos);
    }

    exec fn read_le_bytes(bytes: &[u8], pos: usize) -> (r: Self) {
        let raw = u16::read_le_bytes(bytes, pos);
        proof {
            ProfileNose::lemma_raw_round_trip(raw);
        }
        ProfileNose::from_raw(raw)
    }

    exec fn write_be_bytes(&self, bytes: &mut [u8], pos: usize) {
        self.to_raw().write_be_bytes(bytes, pos);
    }

    exec fn read_be_bytes(bytes: &[u8], pos: usize) -> (r: Self) {
        let raw = u16::read_be_bytes(bytes, pos);
        proof {
            ProfileNose::lemma_raw_round_trip(raw);
        }
        ProfileNose::from_raw(raw)
    }
}

#[derive(Clone, Copy, Debug, PartialEq, Eq, Default)]
pub struct ProfileLip {
    pub style: u16,
    pub color: u16,
    pub scale: u16,
    pub y_scale: u16,
}

impl ProfileLip {
    /// The fields packed into `raw`, first field in the lowest bits.
    pub open spec fn spec_from_raw(raw: u16) -> ProfileLip {
        ProfileLip {
            style: raw & 0x3f,
            color: (raw >> 6) & 0x7,
            scale: (raw >> 9) & 0xf,
            y_scale: (raw >> 13) & 0x7,
        }
    }

    /// The raw value holding the fields, first field in the lowest bits.
    pub open spec fn spec_to_raw(self) -> u16 {
        self.style | (self.color << 6) | (self.scale << 9) | (self.y_scale << 13)
    }

    pub exec fn from_raw(raw: u16) -> (r: ProfileLip)
        ensures
            r == ProfileLip::spec_from_raw(raw),
    {
        ProfileLip {
            style: raw & 0x3f,
            color: (raw >> 6) & 0x7,
            scale: (raw >> 9) & 0xf,
            y_scale: (raw >> 13) & 0x7,
        }
    }

    pub exec fn to_raw(&self) -> (r: u16)
        ensures
            r == self.spec_to_raw(),
    {
        self.style | (self.color << 6) | (self.scale << 9) | (self.y_scale << 13)
    }

    /// Unpacking any raw value and packing the fields again gives the
    /// raw value back, and the unpacked fields each fit their width.
    pub proof fn lemma_raw_round_trip(raw: u16)
        ensures
            ProfileLip::spec_from_raw(raw).wf(),
            ProfileLip::spec_from_raw(raw).spec_to_raw() == raw,
    {
        assert(((raw & 0x3f) | (((raw >> 6) & 0x7) << 6) | (((raw >> 9) & 0xf) << 9) | (((raw >> 13) & 0x7) << 13)) == raw && raw & 0x3f < 0x40 && (raw >> 6) & 0x7 < 0x8 && (raw >> 9) & 0xf < 0x10 && (raw >> 13) & 0x7 < 0x8) by (bit_vector);
    }

    /// Packing well-formed fields and unpacking them returns each field.
    pub proof fn lemma_field_round_trip(v: ProfileLip)
        requires
            v.wf(),
        ensures
            ProfileLip::spec_from_raw(v.spec_to_raw()) == v,
    {
        let f_style = v.style;
        let f_color = v.color;
        let f_scale = v.scale;
        let f_y_scale = v.y_scale;
        assert((f_style | (f_color << 6) | (f_scale << 9) | (f_y_scale << 13)) & 0x3f == f_style && ((f_style | (f_color << 6) | (f_scale << 9) | (f_y_scale << 13)) >> 6) & 0x7 == f_color && ((f_style | (f_color << 6) | (f_scale << 9) | (f_y_scale << 13)) >> 9) & 0xf == f_scale && ((f_style | (f_color << 6) | (f_scale << 9) | (f_y_scale << 13)) >> 13) & 0x7 == f_y_scale) by (bit_vector)
            requires
                f_style < 0x40,
                f_color < 0x8,
                f_scale < 0x10,
                f_y_scale < 0x8,
        ;
    }
}

impl ByteStructImpl for ProfileLip {
    open spec fn spec_byte_len() -> nat {
        2
    }

    open spec fn wf(&self) -> bool {
        self.style < 0x40 && self.color < 0x8 && self.scale < 0x10 && self.y_scale < 0x8
    }

    open spec fn le_bytes(&self) -> Seq<u8> {
        self.spec_to_raw().le_bytes()
    }

    open spec fn be_bytes(&self) -> Seq<u8> {
        self.spec_to_raw().be_bytes()
    }

    proof fn lemma_len(&self) {
    }

    proof fn lemma_injective(a: Self, b: Self) {
        u16::lemma_injective(a.spec_to_raw(), b.spec_to_raw());
        ProfileLip::lemma_field_round_trip(a);
        ProfileLip::lemma_field_round_trip(b);
    }

    exec fn byte_len() -> (n: usize) {
        2
    }

    exec fn write_le_bytes(&self, bytes: &mut [u8], pos: usize) {
        self.to_raw().write_le_bytes(bytes, pos);
    }

    exec fn read_le_bytes(bytes: &[u8], pos: usize) -> (r: Self) {
        let raw = u16::read_le_bytes(bytes, pos);
        proof {
            ProfileLip::lemma_raw_round_trip(raw);
        }
        ProfileLip::from_raw(raw)
    }

    exec fn write_be_bytes(&self, bytes: &mut [u8], pos: usize) {
        self.to_raw().write_be_bytes(bytes, pos);
    }

    exec fn read_be_bytes(bytes: &[u8], pos: usize) -> (r: Self) {
        let raw = u16::read_be_bytes(bytes, pos);
        proof {
            ProfileLip::lemma_raw_round_trip(raw);
        }
        ProfileLip::from_raw(raw)
    }
}

#[derive(Clone, Copy, Debug, PartialEq, Eq, Default)]
pub struct ProfileMisc {
    pub lip_y: u16,
    pub mustache_style: u16,
    pub padding: u16,
}

impl ProfileMisc {
    /// The fields packed into `raw`, first field in the lowest bits.
    pub open spec fn spec_from_raw(raw: u16) -> ProfileMisc {
        ProfileMisc {
            lip_y: raw & 0x1f,
            mustache_style: (raw >> 5) & 0x7,
            padding: (raw >> 8) & 0xff,
        }
    }

    /// The raw value holding the fields, first field in the lowest bits.
    pub open spec fn spec_to_raw(self) -> u16 {
        self.lip_y | (self.mustache_style << 5) | (self.padding << 8)
    }

    pub exec fn from_raw(raw: u16) -> (r: ProfileMisc)
        ensures
            r == ProfileMisc::spec_from_raw(raw),
    {
        ProfileMisc {
            lip_y: raw & 0x1f,
            mustache_style: (raw >> 5) & 0x7,
            padding: (raw >> 8) & 0xff,
        }
    }

    pub exec fn to_raw(&self) -> (r: u16)
        ensures
            r == self.spec_to_raw(),
    {
        self.lip_y | (self.mustache_style << 5) | (self.padding << 8)
    }

    /// Unpacking any raw value and packing the fields again gives the
    /// raw value back, and the unpacked fields each fit their width.
    pub proof fn lemma_raw_round_trip(raw: u16)
        ensures
            ProfileMisc::spec_from_raw(raw).wf(),
            ProfileMisc::spec_from_raw(raw).spec_to_raw() == raw,
    {
        assert(((raw & 0x1f) | (((raw >> 5) & 0x7) << 5) | (((raw >> 8) & 0xff) << 8)) == raw && raw & 0x1f < 0x20 && (raw >> 5) & 0x7 < 0x8 && (raw >> 8) & 0xff < 0x100) by (bit_vector);
    }

    /// Packing well-formed fields and unpacking them returns each field.
    pub proof fn lemma_field_round_trip(v: ProfileMisc)
        requires
            v.wf(),
        ensures
            ProfileMisc::spec_from_raw(v.spec_to_raw()) == v,
    {
        let f_lip_y = v.lip_y;
        let f_mustache_style = v.mustache_style;
        let f_padding = v.padding;
        assert((f_lip_y | (f_mustache_style << 5) | (f_padding << 8)) & 0x1f == f_lip_y && ((f_lip_y | (f_mustache_style << 5) | (f_padding << 8)) >> 5) & 0x7 == f_mustache_style && ((f_lip_y | (f_mustache_style << 5) | (f_padding << 8)) >> 8) & 0xff == f_padding) by (bit_vector)
            requires
                f_lip_y < 0x20,
                f_mustache_style < 0x8,
                f_padding < 0x100,
        ;
    }
}

impl ByteStructImpl for ProfileMisc {
    open spec fn spec_byte_len() -> nat {
        2
    }

    open spec fn wf(&self) -> bool {
        self.lip_y < 0x20 && self.mustache_style < 0x8 && self.padding < 0x100
    }

    open spec fn le_bytes(&self) -> Seq<u8> {
        self.spec_to_raw().le_bytes()
    }

    open spec fn be_bytes(&self) -> Seq<u8> {
        self.spec_to_raw().be_bytes()
    }

    proof fn lemma_len(&self) {
    }

    proof fn lemma_injective(a: Self, b: Self) {
        u16::lemma_injective(a.spec_to_raw(), b.spec_to_raw());
        ProfileMisc::lemma_field_round_trip(a);
        ProfileMisc::lemma_field_round_trip(b);
    }

    exec fn byte_len() -> (n: usize) {
        2
    }

    exec fn write_le_bytes(&self, bytes: &mut [u8], pos: usize) {
        self.to_raw().write_le_bytes(bytes, pos);
    }

    exec fn read_le_bytes(bytes: &[u8], pos: usize) -> (r: Self) {
        let raw = u16::read_le_bytes(bytes, pos);
        proof {
            ProfileMisc::lemma_raw_round_trip(raw);
        }
        ProfileMisc::from_raw(raw)
    }

    exec fn write_be_bytes(&self, bytes: &mut [u8], pos: usize) {
        self.to_raw().write_be_bytes(bytes, pos);
    }

    exec fn read_be_bytes(bytes: &[u8], pos: usize) -> (r: Self) {
        let raw = u16::read_be_bytes(bytes, pos);
        proof {
            ProfileMisc::lemma_raw_round_trip(raw);
        }
        ProfileMisc::from_raw(raw)
    }
}

#[derive(Clone, Copy, Debug, PartialEq, Eq, Default)]
pub struct ProfileBeard {
    pub style: u16,
    pub color: u16,
    pub mustache_scale: u16,
    pub mustache_y: u16,
    pub padding: u16,
}

impl ProfileBeard {
    /// The fields packed into `raw`, first field in the lowest bits.
    pub open spec fn spec_from_raw(raw: u16) -> ProfileBeard {
        ProfileBeard {
            style: raw & 0x7,
            color: (raw >> 3) & 0x7,
            mustache_scale: (raw >> 6) & 0xf,
            mustache_y: (raw >> 10) & 0x1f,
            padding: (raw >> 15) & 0x1,
        }
    }

    /// The raw value holding the fields, first field in the lowest bits.
    pub open spec fn spec_to_raw(self) -> u16 {
        self.style | (self.color << 3) | (self.mustache_scale << 6) | (self.mustache_y << 10) | (self.padding << 15)
    }

    pub exec fn from_raw(raw: u16) -> (r: ProfileBeard)
        ensures
            r == ProfileBeard::spec_from_raw(raw),
    {
        ProfileBeard {
            style: raw & 0x7,
            color: (raw >> 3) & 0x7,
            mustache_scale: (raw >> 6) & 0xf,
            mustache_y: (raw >> 10) & 0x1f,
            padding: (raw >> 15) & 0x1,
        }
    }

    pub exec fn to_raw(&self) -> (r: u16)
        ensures
            r == self.spec_to_raw(),
    {
        self.style | (self.color << 3) | (self.mustache_scale << 6) | (self.mustache_y << 10) | (self.padding << 15)
    }

    /// Unpacking any raw value and packing the fields again gives the
    /// raw value back, and the unpacked fields each fit their width.
    pub proof fn lemma_raw_round_trip(raw: u16)
        ensures
            ProfileBeard::spec_from_raw(raw).wf(),
            ProfileBeard::spec_from_raw(raw).spec_to_raw() == raw,
    {
        assert(((raw & 0x7) | (((raw >> 3) & 0x7) << 3) | (((raw >> 6) & 0xf) << 6) | (((raw >> 10) & 0x1f) << 10) | (((raw >> 15) & 0x1) << 15)) == raw && raw & 0x7 < 0x8 && (raw >> 3) & 0x7 < 0x8 && (raw >> 6) & 0xf < 0x10 && (raw >> 10) & 0x1f < 0x20 && (raw >> 15) & 0x1 < 0x2) by (bit_vector);
    }

    /// Packing well-formed fields and unpacking them returns each field.
    pub proof fn lemma_field_round_trip(v: ProfileBeard)
        requires
            v.wf(),
        ensures
            ProfileBeard::spec_from_raw(v.spec_to_raw()) == v,
    {
        let f_style = v.style;
        let f_color = v.color;
        let f_mustache_scale = v.mustache_scale;
        let f_mustache_y = v.mustache_y;
        let f_padding = v.padding;
        assert((f_style | (f_color << 3) | (f_mustache_scale << 6) | (f_mustache_y << 10) | (f_padding << 15)) & 0x7 == f_style && ((f_style | (f_color << 3) | (f_mustache_scale << 6) | (f_mustache_y << 10) | (f_padding << 15)) >> 3) & 0x7 == f_color && ((f_style | (f_color << 3) | (f_mustache_scale << 6) | (f_mustache_y << 10) | (f_padding << 15)) >> 6) & 0xf == f_mustache_scale && ((f_style | (f_color << 3) | (f_mustache_scale << 6) | (f_mustache_y << 10) | (f_padding << 15)) >> 10) & 0x1f == f_mustache_y && ((f_style | (f_color << 3) | (f_mustache_scale << 6) | (f_mustache_y << 10) | (f_padding << 15)) >> 15) & 0x1 == f_padding) by (bit_vector)
            requires
                f_style < 0x8,
                f_color < 0x8,
                f_mustache_scale < 0x10,
                f_mustache_y < 0x20,
                f_padding < 0x2,
        ;
    }
}

impl ByteStructImpl for ProfileBeard {
    open spec fn spec_byte_len() -> nat {
        2
    }

    open spec fn wf(&self) -> bool {
        self.style < 0x8 && self.color < 0x8 && self.mustache_scale < 0x10 && self.mustache_y < 0x20 && self.padding < 0x2
    }

    open spec fn le_bytes(&self) -> Seq<u8> {
        self.spec_to_raw().le_bytes()
    }

    open spec fn be_bytes(&self) -> Seq<u8> {
        self.spec_to_raw().be_bytes()
    }

    proof fn lemma_len(&self) {
    }

    proof fn lemma_injective(a: Self, b: Self) {
        u16::lemma_injective(a.spec_to_raw(), b.spec_to_raw());
        ProfileBeard::lemma_field_round_trip(a);
        ProfileBeard::lemma_field_round_trip(b);
    }

    exec fn byte_len() -> (n: usize) {
        2
    }

    exec fn write_le_bytes(&self, bytes: &mut [u8], pos: usize) {
        self.to_raw().write_le_bytes(bytes, pos);
    }

    exec fn read_le_bytes(bytes: &[u8], pos: usize) -> (r: Self) {
        let raw = u16::read_le_bytes(bytes, pos);
        proof {
            ProfileBeard::lemma_raw_round_trip(raw);
        }
        ProfileBeard::from_raw(raw)
    }

    exec fn write_be_bytes(&self, bytes: &mut [u8], pos: usize) {
        self.to_raw().write_be_bytes(bytes, pos);
    }

    exec fn read_be_bytes(bytes: &[u8], pos: usize) -> (r: Self) {
        let raw = u16::read_be_bytes(bytes, pos);
        proof {
            ProfileBeard::lemma_raw_round_trip(raw);
        }
        ProfileBeard::from_raw(raw)
    }
}

#[derive(Clone, Copy, Debug, PartialEq, Eq, Default)]
pub struct ProfileGlass {
    pub style: u16,
    pub color: u16,
    pub scale: u16,
    pub y: u16,
}

impl ProfileGlass {
    /// The fields packed into `raw`, first field in the lowest bits.
    pub open spec fn spec_from_raw(raw: u16) -> ProfileGlass {
        ProfileGlass {
            style: raw & 0xf,
            color: (raw >> 4) & 0x7,
            scale: (raw >> 7) & 0xf,
            y: (raw >> 11) & 0x1f,
        }
    }

    /// The raw value holding the fields, first field in the lowest bits.
    pub open spec fn spec_to_raw(self) -> u16 {
        self.style | (self.color << 4) | (self.scale << 7) | (self.y << 11)
    }

    pub exec fn from_raw(raw: u16) -> (r: ProfileGlass)
        ensures
            r == ProfileGlass::spec_from_raw(raw),
    {
        ProfileGlass {
            style: raw & 0xf,
            color: (raw >> 4) & 0x7,
            scale: (raw >> 7) & 0xf,
            y: (raw >> 11) & 0x1f,
        }
    }

    pub exec fn to_raw(&self) -> (r: u16)
        ensures
            r == self.spec_to_raw(),
    {
        self.style | (self.color << 4) | (self.scale << 7) | (self.y << 11)
    }

    /// Unpacking any raw value and packing the fields again gives the
    /// raw value back, and the unpacked fields each fit their width.
    pub proof fn lemma_raw_round_trip(raw: u16)
        ensures
            ProfileGlass::spec_from_raw(raw).wf(),
            ProfileGlass::spec_from_raw(raw).spec_to_raw() == raw,
    {
        assert(((raw & 0xf) | (((raw >> 4) & 0x7) << 4) | (((raw >> 7) & 0xf) << 7) | (((raw >> 11) & 0x1f) << 11)) == raw && raw & 0xf < 0x10 && (raw >> 4) & 0x7 < 0x8 && (raw >> 7) & 0xf < 0x10 && (raw >> 11) & 0x1f < 0x20) by (bit_vector);
    }

    /// Packing well-formed fields and unpacking them returns each field.
    pub proof fn lemma_field_round_trip(v: ProfileGlass)
        requires
            v.wf(),
        ensures
            ProfileGlass::spec_from_raw(v.spec_to_raw()) == v,
    {
        let f_style = v.style;
        let f_color = v.color;
        let f_scale = v.scale;
        let f_y = v.y;
        assert((f_style | (f_color << 4) | (f_scale << 7) | (f_y << 11)) & 0xf == f_style && ((f_style | (f_color << 4) | (f_scale << 7) | (f_y << 11)) >> 4) & 0x7 == f_color && ((f_style | (f_color << 4) | (f_scale << 7) | (f_y << 11)) >> 7) & 0xf == f_scale && ((f_style | (f_color << 4) | (f_scale << 7) | (f_y << 11)) >> 11) & 0x1f == f_y) by (bit_vector)
            requires
                f_style < 0x10,
                f_color < 0x8,
                f_scale < 0x10,
                f_y < 0x20,
        ;
    }
}

impl ByteStructImpl for ProfileGlass {
    open spec fn spec_byte_len() -> nat {
        2
    }

    open spec fn wf(&self) -> bool {
        self.style < 0x10 && self.color < 0x8 && self.scale < 0x10 && self.y < 0x20
    }

    open spec fn le_bytes(&self) -> Seq<u8> {
        self.spec_to_raw().le_bytes()
    }

    open spec fn be_bytes(&self) -> Seq<u8> {
        self.spec_to_raw().be_bytes()
    }

    proof fn lemma_len(&self) {
    }

    proof fn lemma_injective(a: Self, b: Self) {
        u16::lemma_injective(a.spec_to_raw(), b.spec_to_raw());
        ProfileGlass::lemma_field_round_trip(a);
        ProfileGlass::lemma_field_round_trip(b);
    }

    exec fn byte_len() -> (n: usize) {
        2
    }

    exec fn write_le_bytes(&self, bytes: &mut [u8], pos: usize) {
        self.to_raw().write_le_bytes(bytes, pos);
    }

    exec fn read_le_bytes(bytes: &[u8], pos: usize) -> (r: Self) {
        let raw = u16::read_le_bytes(bytes, pos);
        proof {
            ProfileGlass::lemma_raw_round_trip(raw);
        }
        ProfileGlass::from_raw(raw)
    }

    exec fn write_be_bytes(&self, bytes: &mut [u8], pos: usize) {
        self.to_raw().write_be_bytes(bytes, pos);
    }

    exec fn read_be_bytes(bytes: &[u8], pos: usize) -> (r: Self) {
        let raw = u16::read_be_bytes(bytes, pos);
        proof {
            ProfileGlass::lemma_raw_round_trip(raw);
        }
        ProfileGlass::from_raw(raw)
    }
}

#[derive(Clone, Copy, Debug, PartialEq, Eq, Default)]
pub struct ProfileMole {
    pub style: u16,
    pub scale: u16,
    pub x: u16,
    pub y: u16,
    pub padding: u16,
}

impl ProfileMole {
    /// The fields packed into `raw`, first field in the lowest bits.
    pub open spec fn spec_from_raw(raw: u16) -> ProfileMole {
        ProfileMole {
            style: raw & 0x1,
            scale: (raw >> 1) & 0xf,
            x: (raw >> 5) & 0x1f,
            y: (raw >> 10) & 0x1f,
            padding: (raw >> 15) & 0x1,
        }
    }

    /// The raw value holding the fields, first field in the lowest bits.
    pub open spec fn spec_to_raw(self) -> u16 {
        self.style | (self.scale << 1) | (self.x << 5) | (self.y << 10) | (self.padding << 15)
    }

    pub exec fn from_raw(raw: u16) -> (r: ProfileMole)
        ensures
            r == ProfileMole::spec_from_raw(raw),
    {
        ProfileMole {
            style: raw & 0x1,
            scale: (raw >> 1) & 0xf,
            x: (raw >> 5) & 0x1f,
            y: (raw >> 10) & 0x1f,
            padding: (raw >> 15) & 0x1,
        }
    }

    pub exec fn to_raw(&self) -> (r: u16)
        ensures
            r == self.spec_to_raw(),
    {
        self.style | (self.scale << 1) | (self.x << 5) | (self.y << 10) | (self.padding << 15)
    }

    /// Unpacking any raw value and packing the fields again gives the
    /// raw value back, and the unpacked fields each fit their width.
    pub proof fn lemma_raw_round_trip(raw: u16)
        ensures
            ProfileMole::spec_from_raw(raw).wf(),
            ProfileMole::spec_from_raw(raw).spec_to_raw() == raw,
    {
        assert(((raw & 0x1) | (((raw >> 1) & 0xf) << 1) | (((raw >> 5) & 0x1f) << 5) | (((raw >> 10) & 0x1f) << 10) | (((raw >> 15) & 0x1) << 15)) == raw && raw & 0x1 < 0x2 && (raw >> 1) & 0xf < 0x10 && (raw >> 5) & 0x1f < 0x20 && (raw >> 10) & 0x1f < 0x20 && (raw >> 15) & 0x1 < 0x2) by (bit_vector);
    }

    /// Packing well-formed fields and unpacking them returns each field.
    pub proof fn lemma_field_round_trip(v: ProfileMole)
        requires
            v.wf(),
        ensures
            ProfileMole::spec_from_raw(v.spec_to_raw()) == v,
    {
        let f_style = v.style;
        let f_scale = v.scale;
        let f_x = v.x;
        let f_y = v.y;
        let f_padding = v.padding;
        assert((f_style | (f_scale << 1) | (f_x << 5) | (f_y << 10) | (f_padding << 15)) & 0x1 == f_style && ((f_style | (f_scale << 1) | (f_x << 5) | (f_y << 10) | (f_padding << 15)) >> 1) & 0xf == f_scale && ((f_style | (f_scale << 1) | (f_x << 5) | (f_y << 10) | (f_padding << 15)) >> 5) & 0x1f == f_x && ((f_style | (f_scale << 1) | (f_x << 5) | (f_y << 10) | (f_padding << 15)) >> 10) & 0x1f == f_y && ((f_style | (f_scale << 1) | (f_x << 5) | (f_y << 10) | (f_padding << 15)) >> 15) & 0x1 == f_padding) by (bit_vector)
            requires
                f_style < 0x2,
                f_scale < 0x10,
                f_x < 0x20,
                f_y < 0x20,
                f_padding < 0x2,
        ;
    }
}

impl ByteStructImpl for ProfileMole {
    open spec fn spec_byte_len() -> nat {
        2
    }

    open spec fn wf(&self) -> bool {
        self.style < 0x2 && self.scale < 0x10 && self.x < 0x20 && self.y < 0x20 && self.padding < 0x2
    }

    open spec fn le_bytes(&self) -> Seq<u8> {
        self.spec_to_raw().le_bytes()
    }

    open spec fn be_bytes(&self) -> Seq<u8> {
        self.spec_to_raw().be_bytes()
    }

    proof fn lemma_len(&self) {
    }

    proof fn lemma_injective(a: Self, b: Self) {
        u16::lemma_injective(a.spec_to_raw(), b.spec_to_raw());
        ProfileMole::lemma_field_round_trip(a);
        ProfileMole::lemma_field_round_trip(b);
    }

    exec fn byte_len() -> (n: usize) {
        2
    }

    exec fn write_le_bytes(&self, bytes: &mut [u8], pos: usize) {
        self.to_raw().write_le_bytes(bytes, pos);
    }

    exec fn read_le_bytes(bytes: &[u8], pos: usize) -> (r: Self) {
        let raw = u16::read_le_bytes(bytes, pos);
        proof {
            ProfileMole::lemma_raw_round_trip(raw);
        }
        ProfileMole::from_raw(raw)
    }

    exec fn write_be_bytes(&self, bytes: &mut [u8], pos: usize) {
        self.to_raw().write_be_bytes(bytes, pos);
    }

    exec fn read_be_bytes(bytes: &[u8], pos: usize) -> (r: Self) {
        let raw = u16::read_be_bytes(bytes, pos);
        proof {
            ProfileMole::lemma_raw_round_trip(raw);
        }
        ProfileMole::from_raw(raw)
    }
}

/// One stored avatar profile.
#[derive(Clone, Copy, Debug, PartialEq)]
pub struct Profile {
    pub header: ProfileHeader,
    pub system_id: [u8; 8],
    pub id: ProfileId,
    pub padding: u16,
    pub general: ProfileGeneral,
    pub name: [u16; 10],
    pub height: u8,
    pub width: u8,
    pub face: ProfileFace,
    pub hair: ProfileHair,
    pub eye: ProfileEye,
    pub eyebrow: ProfileEyebrow,
    pub nose: ProfileNose,
    pub lip: ProfileLip,
    pub misc: ProfileMisc,
    pub beard: ProfileBeard,
    pub glass: ProfileGlass,
    pub mole: ProfileMole,
}

impl ByteStructImpl for Profile {
    open spec fn spec_byte_len() -> nat {
        0x48
    }

    open spec fn wf(&self) -> bool {
        self.header.wf() && wf_seq(self.system_id@) && self.id.wf() && self.padding.wf() && self.general.wf() && wf_seq(self.name@) && self.height.wf() && self.width.wf() && self.face.wf() && self.hair.wf() && self.eye.wf() && self.eyebrow.wf() && self.nose.wf() && self.lip.wf() && self.misc.wf() && self.beard.wf() && self.glass.wf() && self.mole.wf()
    }

    open spec fn le_bytes(&self) -> Seq<u8> {
        self.header.le_bytes() + seq_bytes(self.system_id@, false) + self.id.le_bytes() + self.padding.le_bytes() + self.general.le_bytes() + seq_bytes(self.name@, false) + self.height.le_bytes() + self.width.le_bytes() + self.face.le_bytes() + self.hair.le_bytes() + self.eye.le_bytes() + self.eyebrow.le_bytes() + self.nose.le_bytes() + self.lip.le_bytes() + self.misc.le_bytes() + self.beard.le_bytes() + self.glass.le_bytes() + self.mole.le_bytes()
    }

    open spec fn be_bytes(&self) -> Seq<u8> {
        self.le_bytes()
    }

    proof fn lemma_len(&self) {
        self.header.lemma_len();
        lemma_seq_bytes_len(self.system_id@, false);
        self.id.lemma_len();
        self.padding.lemma_len();
        self.general.lemma_len();
        lemma_seq_bytes_len(self.name@, false);
        self.height.lemma_len();
        self.width.lemma_len();
        self.face.lemma_len();
        self.hair.lemma_len();
        self.eye.lemma_len();
        self.eyebrow.lemma_len();
        self.nose.lemma_len();
        self.lip.lemma_len();
        self.misc.lemma_len();
        self.beard.lemma_len();
        self.glass.lemma_len();
        self.mole.lemma_len();
    }

    #[verifier::spinoff_prover]
    #[verifier::rlimit(100)]
    proof fn lemma_injective(a: Self, b: Self) {
        a.header.lemma_len();
        lemma_seq_bytes_len(a.system_id@, false);
        a.id.lemma_len();
        a.padding.lemma_len();
        a.general.lemma_len();
        lemma_seq_bytes_len(a.name@, false);
        a.height.lemma_len();
        a.width.lemma_len();
        a.face.lemma_len();
        a.hair.lemma_len();
        a.eye.lemma_len();
        a.eyebrow.lemma_len();
        a.nose.lemma_len();
        a.lip.lemma_len();
        a.misc.lemma_len();
        a.beard.lemma_len();
        a.glass.lemma_len();
        a.mole.lemma_len();
        b.header.lemma_len();
        lemma_seq_bytes_len(b.system_id@, false);
        b.id.lemma_len();
        b.padding.lemma_len();
        b.general.lemma_len();
        lemma_seq_bytes_len(b.name@, false);
        b.height.lemma_len();
        b.width.lemma_len();
        b.face.lemma_len();
        b.hair.lemma_len();
        b.eye.lemma_len();
        b.eyebrow.lemma_len();
        b.nose.lemma_len();
        b.lip.lemma_len();
        b.misc.lemma_len();
        b.beard.lemma_len();
        b.glass.lemma_len();
        b.mole.lemma_len();
        if a.le_bytes() == b.le_bytes() {
            let sa = a.le_bytes();
            let sb = b.le_bytes();
            assert(a.mole.le_bytes() =~= sa.subrange(0x46, 0x48));
            assert(b.mole.le_bytes() =~= sb.subrange(0x46, 0x48));
            assert(a.header.le_bytes() + seq_bytes(a.system_id@, false) + a.id.le_bytes() + a.padding.le_bytes() + a.general.le_bytes() + seq_bytes(a.name@, false) + a.height.le_bytes() + a.width.le_bytes() + a.face.le_bytes() + a.hair.le_bytes() + a.eye.le_bytes() + a.eyebrow.le_bytes() + a.nose.le_bytes() + a.lip.le_bytes() + a.misc.le_bytes() + a.beard.le_bytes() + a.glass.le_bytes() =~= sa.subrange(0, 0x46));
            assert(b.header.le_bytes() + seq_bytes(b.system_id@, false) + b.id.le_bytes() + b.padding.le_bytes() + b.general.le_bytes() + seq_bytes(b.name@, false) + b.height.le_bytes() + b.width.le_bytes() + b.face.le_bytes() + b.hair.le_bytes() + b.eye.le_bytes() + b.eyebrow.le_bytes() + b.nose.le_bytes() + b.lip.le_bytes() + b.misc.le_bytes() + b.beard.le_bytes() + b.glass.le_bytes() =~= sb.subrange(0, 0x46));
            assert(a.glass.le_bytes() =~= sa.subrange(0x44, 0x46));
            assert(b.glass.le_bytes() =~= sb.subrange(0x44, 0x46));
            assert(a.header.le_bytes() + seq_bytes(a.system_id@, false) + a.id.le_bytes() + a.padding.le_bytes() + a.general.le_bytes() + seq_bytes(a.name@, false) + a.height.le_bytes() + a.width.le_bytes() + a.face.le_bytes() + a.hair.le_bytes() + a.eye.le_bytes() + a.eyebrow.le_bytes() + a.nose.le_bytes() + a.lip.le_bytes() + a.misc.le_bytes() + a.beard.le_bytes() =~= sa.subrange(0, 0x44));
            assert(b.header.le_bytes() + seq_bytes(b.system_id@, false) + b.id.le_bytes() + b.padding.le_bytes() + b.general.le_bytes() + seq_bytes(b.name@, false) + b.height.le_bytes() + b.width.le_bytes() + b.face.le_bytes() + b.hair.le_bytes() + b.eye.le_bytes() + b.eyebrow.le_bytes() + b.nose.le_bytes() + b.lip.le_bytes() + b.misc.le_bytes() + b.beard.le_bytes() =~= sb.subrange(0, 0x44));
            assert(a.beard.le_bytes() =~= sa.subrange(0x42, 0x44));
            assert(b.beard.le_bytes() =~= sb.subrange(0x42, 0x44));
            assert(a.header.le_bytes() + seq_bytes(a.system_id@, false) + a.id.le_bytes() + a.padding.le_bytes() + a.general.le_bytes() + seq_bytes(a.name@, false) + a.height.le_bytes() + a.width.le_bytes() + a.face.le_bytes() + a.hair.le_bytes() + a.eye.le_bytes() + a.eyebrow.le_bytes() + a.nose.le_bytes() + a.lip.le_bytes() + a.misc.le_bytes() =~= sa.subrange(0, 0x42));
            assert(b.header.le_bytes() + seq_bytes(b.system_id@, false) + b.id.le_bytes() + b.padding.le_bytes() + b.general.le_bytes() + seq_bytes(b.name@, false) + b.height.le_bytes() + b.width.le_bytes() + b.face.le_bytes() + b.hair.le_bytes() + b.eye.le_bytes() + b.eyebrow.le_bytes() + b.nose.le_bytes() + b.lip.le_bytes() + b.misc.le_bytes() =~= sb.subrange(0, 0x42));
            assert(a.misc.le_bytes() =~= sa.subrange(0x40, 0x42));
            assert(b.misc.le_bytes() =~= sb.subrange(0x40, 0x42));
            assert(a.header.le_bytes() + seq_bytes(a.system_id@, false) + a.id.le_bytes() + a.padding.le_bytes() + a.general.le_bytes() + seq_bytes(a.name@, false) + a.height.le_bytes() + a.width.le_bytes() + a.face.le_bytes() + a.hair.le_bytes() + a.eye.le_bytes() + a.eyebrow.le_bytes() + a.nose.le_bytes() + a.lip.le_bytes() =~= sa.subrange(0, 0x40));
            assert(b.header.le_bytes() + seq_bytes(b.system_id@, false) + b.id.le_bytes() + b.padding.le_bytes() + b.general.le_bytes() + seq_bytes(b.name@, false) + b.height.le_bytes() + b.width.le_bytes() + b.face.le_bytes() + b.hair.le_bytes() + b.eye.le_bytes() + b.eyebrow.le_bytes() + b.nose.le_bytes() + b.lip.le_bytes() =~= sb.subrange(0, 0x40));
            assert(a.lip.le_bytes() =~= sa.subrange(0x3e, 0x40));
            assert(b.lip.le_bytes() =~= sb.subrange(0x3e, 0x40));
            assert(a.header.le_bytes() + seq_bytes(a.system_id@, false) + a.id.le_bytes() + a.padding.le_bytes() + a.general.le_bytes() + seq_bytes(a.name@, false) + a.height.le_bytes() + a.width.le_bytes() + a.face.le_bytes() + a.hair.le_bytes() + a.eye.le_bytes() + a.eyebrow.le_bytes() + a.nose.le_bytes() =~= sa.subrange(0, 0x3e));
            assert(b.header.le_bytes() + seq_bytes(b.system_id@, false) + b.id.le_bytes() + b.padding.le_bytes() + b.general.le_bytes() + seq_bytes(b.name@, false) + b.height.le_bytes() + b.width.le_bytes() + b.face.le_bytes() + b.hair.le_bytes() + b.eye.le_bytes() + b.eyebrow.le_bytes() + b.nose.le_bytes() =~= sb.subrange(0, 0x3e));
            assert(a.nose.le_bytes() =~= sa.subrange(0x3c, 0x3e));
            assert(b.nose.le_bytes() =~= sb.subrange(0x3c, 0x3e));
            assert(a.header.le_bytes() + seq_bytes(a.system_id@, false) + a.id.le_bytes() + a.padding.le_bytes() + a.general.le_bytes() + seq_bytes(a.name@, false) + a.height.le_bytes() + a.width.le_bytes() + a.face.le_bytes() + a.hair.le_bytes() + a.eye.le_bytes() + a.eyebrow.le_bytes() =~= sa.subrange(0, 0x3c));
            assert(b.header.le_bytes() + seq_bytes(b.system_id@, false) + b.id.le_bytes() + b.padding.le_bytes() + b.general.le_bytes() + seq_bytes(b.name@, false) + b.height.le_bytes() + b.width.le_bytes() + b.face.le_bytes() + b.hair.le_bytes() + b.eye.le_bytes() + b.eyebrow.le_bytes() =~= sb.subrange(0, 0x3c));
            assert(a.eyebrow.le_bytes() =~= sa.subrange(0x38, 0x3c));
            assert(b.eyebrow.le_bytes() =~= sb.subrange(0x38, 0x3c));
            assert(a.header.le_bytes() + seq_bytes(a.system_id@, false) + a.id.le_bytes() + a.padding.le_bytes() + a.general.le_bytes() + seq_bytes(a.name@, false) + a.height.le_bytes() + a.width.le_bytes() + a.face.le_bytes() + a.hair.le_bytes() + a.eye.le_bytes() =~= sa.subrange(0, 0x38));
            assert(b.header.le_bytes() + seq_bytes(b.system_id@, false) + b.id.le_bytes() + b.padding.le_bytes() + b.general.le_bytes() + seq_bytes(b.name@, false) + b.height.le_bytes() + b.width.le_bytes() + b.face.le_bytes() + b.hair.le_bytes() + b.eye.le_bytes() =~= sb.subrange(0, 0x38));
            assert(a.eye.le_bytes() =~= sa.subrange(0x34, 0x38));
            assert(b.eye.le_bytes() =~= sb.subrange(0x34, 0x38));
            assert(a.header.le_bytes() + seq_bytes(a.system_id@, false) + a.id.le_bytes() + a.padding.le_bytes() + a.general.le_bytes() + seq_bytes(a.name@, false) + a.height.le_bytes() + a.width.le_bytes() + a.face.le_bytes() + a.hair.le_bytes() =~= sa.subrange(0, 0x34));
            assert(b.header.le_bytes() + seq_bytes(b.system_id@, false) + b.id.le_bytes() + b.padding.le_bytes() + b.general.le_bytes() + seq_bytes(b.name@, false) + b.height.le_bytes() + b.width.le_bytes() + b.face.le_bytes() + b.hair.le_bytes() =~= sb.subrange(0, 0x34));
            assert(a.hair.le_bytes() =~= sa.subrange(0x32, 0x34));
            assert(b.hair.le_bytes() =~= sb.subrange(0x32, 0x34));
            assert(a.header.le_bytes() + seq_bytes(a.system_id@, false) + a.id.le_bytes() + a.padding.le_bytes() + a.general.le_bytes() + seq_bytes(a.name@, false) + a.height.le_bytes() + a.width.le_bytes() + a.face.le_bytes() =~= sa.subrange(0, 0x32));
            assert(b.header.le_bytes() + seq_bytes(b.system_id@, false) + b.id.le_bytes() + b.padding.le_bytes() + b.general.le_bytes() + seq_bytes(b.name@, false) + b.height.le_bytes() + b.width.le_bytes() + b.face.le_bytes() =~= sb.subrange(0, 0x32));
            assert(a.face.le_bytes() =~= sa.subrange(0x30, 0x32));
            assert(b.face.le_bytes() =~= sb.subrange(0x30, 0x32));
            assert(a.header.le_bytes() + seq_bytes(a.system_id@, false) + a.id.le_bytes() + a.padding.le_bytes() + a.general.le_bytes() + seq_bytes(a.name@, false) + a.height.le_bytes() + a.width.le_bytes() =~= sa.subrange(0, 0x30));
            assert(b.header.le_bytes() + seq_bytes(b.system_id@, false) + b.id.le_bytes() + b.padding.le_bytes() + b.general.le_bytes() + seq_bytes(b.name@, false) + b.height.le_bytes() + b.width.le_bytes() =~= sb.subrange(0, 0x30));
            assert(a.width.le_bytes() =~= sa.subrange(0x2f, 0x30));
            assert(b.width.le_bytes() =~= sb.subrange(0x2f, 0x30));
            assert(a.header.le_bytes() + seq_bytes(a.system_id@, false) + a.id.le_bytes() + a.padding.le_bytes() + a.general.le_bytes() + seq_bytes(a.name@, false) + a.height.le_bytes() =~= sa.subrange(0, 0x2f));
            assert(b.header.le_bytes() + seq_bytes(b.system_id@, false) + b.id.le_bytes() + b.padding.le_bytes() + b.general.le_bytes() + seq_bytes(b.name@, false) + b.height.le_bytes() =~= sb.subrange(0, 0x2f));
            assert(a.height.le_bytes() =~= sa.subrange(0x2e, 0x2f));
            assert(b.height.le_bytes() =~= sb.subrange(0x2e, 0x2f));
            assert(a.header.le_bytes() + seq_bytes(a.system_id@, false) + a.id.le_bytes() + a.padding.le_bytes() + a.general.le_bytes() + seq_bytes(a.name@, false) =~= sa.subrange(0, 0x2e));
            assert(b.header.le_bytes() + seq_bytes(b.system_id@, false) + b.id.le_bytes() + b.padding.le_bytes() + b.general.le_bytes() + seq_bytes(b.name@, false) =~= sb.subrange(0, 0x2e));
            assert(seq_bytes(a.name@, false) =~= sa.subrange(0x1a, 0x2e));
            assert(seq_bytes(b.name@, false) =~= sb.subrange(0x1a, 0x2e));
            assert(a.header.le_bytes() + seq_bytes(a.system_id@, false) + a.id.le_bytes() + a.padding.le_bytes() + a.general.le_bytes() =~= sa.subrange(0, 0x1a));
            assert(b.header.le_bytes() + seq_bytes(b.system_id@, false) + b.id.le_bytes() + b.padding.le_bytes() + b.general.le_bytes() =~= sb.subrange(0, 0x1a));
            assert(a.general.le_bytes() =~= sa.subrange(0x18, 0x1a));
            assert(b.general.le_bytes() =~= sb.subrange(0x18, 0x1a));
            assert(a.header.le_bytes() + seq_bytes(a.system_id@, false) + a.id.le_bytes() + a.padding.le_bytes() =~= sa.subrange(0, 0x18));
            assert(b.header.le_bytes() + seq_bytes(b.system_id@, false) + b.id.le_bytes() + b.padding.le_bytes() =~= sb.subrange(0, 0x18));
            assert(a.padding.le_bytes() =~= sa.subrange(0x16, 0x18));
            assert(b.padding.le_bytes() =~= sb.subrange(0x16, 0x18));
            assert(a.header.le_bytes() + seq_bytes(a.system_id@, false) + a.id.le_bytes() =~= sa.subrange(0, 0x16));
            assert(b.header.le_bytes() + seq_bytes(b.system_id@, false) + b.id.le_bytes() =~= sb.subrange(0, 0x16));
            assert(a.id.le_bytes() =~= sa.subrange(0xc, 0x16));
            assert(b.id.le_bytes() =~= sb.subrange(0xc, 0x16));
            assert(a.header.le_bytes() + seq_bytes(a.system_id@, false) =~= sa.subrange(0, 0xc));
            assert(b.header.le_bytes() + seq_bytes(b.system_id@, false) =~= sb.subrange(0, 0xc));
            assert(seq_bytes(a.system_id@, false) =~= sa.subrange(4, 0xc));
            assert(seq_bytes(b.system_id@, false) =~= sb.subrange(4, 0xc));
            assert(a.header.le_bytes() =~= sa.subrange(0, 4));
            assert(b.header.le_bytes() =~= sb.subrange(0, 4));
            assert(a.header.le_bytes() =~= sa.subrange(0, 4));
            assert(b.header.le_bytes() =~= sb.subrange(0, 4));
            ProfileHeader::lemma_injective(a.header, b.header);
            lemma_seq_bytes_injective(a.system_id@, b.system_id@, false);
            assert(a.system_id =~= b.system_id);
            ProfileId::lemma_injective(a.id, b.id);
            u16::lemma_injective(a.padding, b.padding);
            ProfileGeneral::lemma_injective(a.general, b.general);
            lemma_seq_bytes_injective(a.name@, b.name@, false);
            assert(a.name =~= b.name);
            u8::lemma_injective(a.height, b.height);
            u8::lemma_injective(a.width, b.width);
            ProfileFace::lemma_injective(a.face, b.face);
            ProfileHair::lemma_injective(a.hair, b.hair);
            ProfileEye::lemma_injective(a.eye, b.eye);
            ProfileEyebrow::lemma_injective(a.eyebrow, b.eyebrow);
            ProfileNose::lemma_injective(a.nose, b.nose);
            ProfileLip::lemma_injective(a.lip, b.lip);
            ProfileMisc::lemma_injective(a.misc, b.misc);
            ProfileBeard::lemma_injective(a.beard, b.beard);
            ProfileGlass::lemma_injective(a.glass, b.glass);
            ProfileMole::lemma_injective(a.mole, b.mole);
            assert(a == b);
        }
    }

    exec fn byte_len() -> (n: usize) {
        0x48
    }

    #[verifier::spinoff_prover]
    #[verifier::rlimit(100)]
    exec fn write_le_bytes(&self, bytes: &mut [u8], pos: usize) {
        let buf_len = bytes.len();
        proof {
            assert(buf_len == bytes@.len());
            self.header.lemma_len();
            lemma_seq_bytes_len(self.system_id@, false);
            self.id.lemma_len();
            self.padding.lemma_len();
            self.general.lemma_len();
            lemma_seq_bytes_len(self.name@, false);
            self.height.lemma_len();
            self.width.lemma_len();
            self.face.lemma_len();
            self.hair.lemma_len();
            self.eye.lemma_len();
            self.eyebrow.lemma_len();
            self.nose.lemma_len();
            self.lip.lemma_len();
            self.misc.lemma_len();
            self.beard.lemma_len();
            self.glass.lemma_len();
            self.mole.lemma_len();
        }
        self.header.write_le_bytes(bytes, pos);
        write_items(self.system_id.as_slice(), bytes, pos + 4, false);
        proof {
            lemma_spliced_append(old(bytes)@, pos as int, self.header.le_bytes(), seq_bytes(self.system_id@, false));
        }
        self.id.write_le_bytes(bytes, pos + 0xc);
        proof {
            lemma_spliced_append(old(bytes)@, pos as int, self.header.le_bytes() + seq_bytes(self.system_id@, false), self.id.le_bytes());
        }
        self.padding.write_le_bytes(bytes, pos + 0x16);
        proof {
            lemma_spliced_append(old(bytes)@, pos as int, self.header.le_bytes() + seq_bytes(self.system_id@, false) + self.id.le_bytes(), self.padding.le_bytes());
        }
        self.general.write_le_bytes(bytes, pos + 0x18);
        proof {
            lemma_spliced_append(old(bytes)@, pos as int, self.header.le_bytes() + seq_bytes(self.system_id@, false) + self.id.le_bytes() + self.padding.le_bytes(), self.general.le_bytes());
        }
        write_items(self.name.as_slice(), bytes, pos + 0x1a, false);
        proof {
            lemma_spliced_append(old(bytes)@, pos as int, self.header.le_bytes() + seq_bytes(self.system_id@, false) + self.id.le_bytes() + self.padding.le_bytes() + self.general.le_bytes(), seq_bytes(self.name@, false));
        }
        self.height.write_le_bytes(bytes, pos + 0x2e);
        proof {
            lemma_spliced_append(old(bytes)@, pos as int, self.header.le_bytes() + seq_bytes(self.system_id@, false) + self.id.le_bytes() + self.padding.le_bytes() + self.general.le_bytes() + seq_bytes(self.name@, false), self.height.le_bytes());
        }
        self.width.write_le_bytes(bytes, pos + 0x2f);
        proof {
            lemma_spliced_append(old(bytes)@, pos as int, self.header.le_bytes() + seq_bytes(self.system_id@, false) + self.id.le_bytes() + self.padding.le_bytes() + self.general.le_bytes() + seq_bytes(self.name@, false) + self.height.le_bytes(), self.width.le_bytes());
        }
        self.face.write_le_bytes(bytes, pos + 0x30);
        proof {
            lemma_spliced_append(old(bytes)@, pos as int, self.header.le_bytes() + seq_bytes(self.system_id@, false) + self.id.le_bytes() + self.padding.le_bytes() + self.general.le_bytes() + seq_bytes(self.name@, false) + self.height.le_bytes() + self.width.le_bytes(), self.face.le_bytes());
        }
        self.hair.write_le_bytes(bytes, pos + 0x32);
        proof {
            lemma_spliced_append(old(bytes)@, pos as int, self.header.le_bytes() + seq_bytes(self.system_id@, false) + self.id.le_bytes() + self.padding.le_bytes() + self.general.le_bytes() + seq_bytes(self.name@, false) + self.height.le_bytes() + self.width.le_bytes() + self.face.le_bytes(), self.hair.le_bytes());
        }
        self.eye.write_le_bytes(bytes, pos + 0x34);
        proof {
            lemma_spliced_append(old(bytes)@, pos as int, self.header.le_bytes() + seq_bytes(self.system_id@, false) + self.id.le_bytes() + self.padding.le_bytes() + self.general.le_bytes() + seq_bytes(self.name@, false) + self.height.le_bytes() + self.width.le_bytes() + self.face.le_bytes() + self.hair.le_bytes(), self.eye.le_bytes());
        }
        self.eyebrow.write_le_bytes(bytes, pos + 0x38);
        proof {
            lemma_spliced_append(old(bytes)@, pos as int, self.header.le_bytes() + seq_bytes(self.system_id@, false) + self.id.le_bytes() + self.padding.le_bytes() + self.general.le_bytes() + seq_bytes(self.name@, false) + self.height.le_bytes() + self.width.le_bytes() + self.face.le_bytes() + self.hair.le_bytes() + self.eye.le_bytes(), self.eyebrow.le_bytes());
        }
        self.nose.write_le_bytes(bytes, pos + 0x3c);
        proof {
            lemma_spliced_append(old(bytes)@, pos as int, self.header.le_bytes() + seq_bytes(self.system_id@, false) + self.id.le_bytes() + self.padding.le_bytes() + self.general.le_bytes() + seq_bytes(self.name@, false) + self.height.le_bytes() + self.width.le_bytes() + self.face.le_bytes() + self.hair.le_bytes() + self.eye.le_bytes() + self.eyebrow.le_bytes(), self.nose.le_bytes());
        }
        self.lip.write_le_bytes(bytes, pos + 0x3e);
        proof {
            lemma_spliced_append(old(bytes)@, pos as int, self.header.le_bytes() + seq_bytes(self.system_id@, false) + self.id.le_bytes() + self.padding.le_bytes() + self.general.le_bytes() + seq_bytes(self.name@, false) + self.height.le_bytes() + self.width.le_bytes() + self.face.le_bytes() + self.hair.le_bytes() + self.eye.le_bytes() + self.eyebrow.le_bytes() + self.nose.le_bytes(), self.lip.le_bytes());
        }
        self.misc.write_le_bytes(bytes, pos + 0x40);
        proof {
            lemma_spliced_append(old(bytes)@, pos as int, self.header.le_bytes() + seq_bytes(self.system_id@, false) + self.id.le_bytes() + self.padding.le_bytes() + self.general.le_bytes() + seq_bytes(self.name@, false) + self.height.le_bytes() + self.width.le_bytes() + self.face.le_bytes() + self.hair.le_bytes() + self.eye.le_bytes() + self.eyebrow.le_bytes() + self.nose.le_bytes() + self.lip.le_bytes(), self.misc.le_bytes());
        }
        self.beard.write_le_bytes(bytes, pos + 0x42);
        proof {
            lemma_spliced_append(old(bytes)@, pos as int, self.header.le_bytes() + seq_bytes(self.system_id@, false) + self.id.le_bytes() + self.padding.le_bytes() + self.general.le_bytes() + seq_bytes(self.name@, false) + self.height.le_bytes() + self.width.le_bytes() + self.face.le_bytes() + self.hair.le_bytes() + self.eye.le_bytes() + self.eyebrow.le_bytes() + self.nose.le_bytes() + self.lip.le_bytes() + self.misc.le_bytes(), self.beard.le_bytes());
        }
        self.glass.write_le_bytes(bytes, pos + 0x44);
        proof {
            lemma_spliced_append(old(bytes)@, pos as int, self.header.le_bytes() + seq_bytes(self.system_id@, false) + self.id.le_bytes() + self.padding.le_bytes() + self.general.le_bytes() + seq_bytes(self.name@, false) + self.height.le_bytes() + self.width.le_bytes() + self.face.le_bytes() + self.hair.le_bytes() + self.eye.le_bytes() + self.eyebrow.le_bytes() + self.nose.le_bytes() + self.lip.le_bytes() + self.misc.le_bytes() + self.beard.le_bytes(), self.glass.le_bytes());
        }
        self.mole.write_le_bytes(bytes, pos + 0x46);
        proof {
            lemma_spliced_append(old(bytes)@, pos as int, self.header.le_bytes() + seq_bytes(self.system_id@, false) + self.id.le_bytes() + self.padding.le_bytes() + self.general.le_bytes() + seq_bytes(self.name@, false) + self.height.le_bytes() + self.width.le_bytes() + self.face.le_bytes() + self.hair.le_bytes() + self.eye.le_bytes() + self.eyebrow.le_bytes() + self.nose.le_bytes() + self.lip.le_bytes() + self.misc.le_bytes() + self.beard.le_bytes() + self.glass.le_bytes(), self.mole.le_bytes());
        }
    }

    #[verifier::spinoff_prover]
    #[verifier::rlimit(100)]
    exec fn read_le_bytes(bytes: &[u8], pos: usize) -> (r: Self) {
        let buf_len = bytes.len();
        proof {
            assert(buf_len == bytes@.len());
        }
        let header = ProfileHeader::read_le_bytes(bytes, pos);
        let system_id: [u8; 8] = read_array(bytes, pos + 4, false);
        let id = ProfileId::read_le_bytes(bytes, pos + 0xc);
        let padding = u16::read_le_bytes(bytes, pos + 0x16);
        let general = ProfileGeneral::read_le_bytes(bytes, pos + 0x18);
        let name: [u16; 10] = read_array(bytes, pos + 0x1a, false);
        let height = u8::read_le_bytes(bytes, pos + 0x2e);
        let width = u8::read_le_bytes(bytes, pos + 0x2f);
        let face = ProfileFace::read_le_bytes(bytes, pos + 0x30);
        let hair = ProfileHair::read_le_bytes(bytes, pos + 0x32);
        let eye = ProfileEye::read_le_bytes(bytes, pos + 0x34);
        let eyebrow = ProfileEyebrow::read_le_bytes(bytes, pos + 0x38);
        let nose = ProfileNose::read_le_bytes(bytes, pos + 0x3c);
        let lip = ProfileLip::read_le_bytes(bytes, pos + 0x3e);
        let misc = ProfileMisc::read_le_bytes(bytes, pos + 0x40);
        let beard = ProfileBeard::read_le_bytes(bytes, pos + 0x42);
        let glass = ProfileGlass::read_le_bytes(bytes, pos + 0x44);
        let mole = ProfileMole::read_le_bytes(bytes, pos + 0x46);
        let r = Profile { header, system_id, id, padding, general, name, height, width, face, hair, eye, eyebrow, nose, lip, misc, beard, glass, mole };
        proof {
            assert(r.header.le_bytes() + seq_bytes(r.system_id@, false) =~= bytes@.subrange(pos as int, pos + 0xc));
            assert(r.header.le_bytes() + seq_bytes(r.system_id@, false) + r.id.le_bytes() =~= bytes@.subrange(pos as int, pos + 0x16));
            assert(r.header.le_bytes() + seq_bytes(r.system_id@, false) + r.id.le_bytes() + r.padding.le_bytes() =~= bytes@.subrange(pos as int, pos + 0x18));
            assert(r.header.le_bytes() + seq_bytes(r.system_id@, false) + r.id.le_bytes() + r.padding.le_bytes() + r.general.le_bytes() =~= bytes@.subrange(pos as int, pos + 0x1a));
            assert(r.header.le_bytes() + seq_bytes(r.system_id@, false) + r.id.le_bytes() + r.padding.le_bytes() + r.general.le_bytes() + seq_bytes(r.name@, false) =~= bytes@.subrange(pos as int, pos + 0x2e));
            assert(r.header.le_bytes() + seq_bytes(r.system_id@, false) + r.id.le_bytes() + r.padding.le_bytes() + r.general.le_bytes() + seq_bytes(r.name@, false) + r.height.le_bytes() =~= bytes@.subrange(pos as int, pos + 0x2f));
            assert(r.header.le_bytes() + seq_bytes(r.system_id@, false) + r.id.le_bytes() + r.padding.le_bytes() + r.general.le_bytes() + seq_bytes(r.name@, false) + r.height.le_bytes() + r.width.le_bytes() =~= bytes@.subrange(pos as int, pos + 0x30));
            assert(r.header.le_bytes() + seq_bytes(r.system_id@, false) + r.id.le_bytes() + r.padding.le_bytes() + r.general.le_bytes() + seq_bytes(r.name@, false) + r.height.le_bytes() + r.width.le_bytes() + r.face.le_bytes() =~= bytes@.subrange(pos as int, pos + 0x32));
            assert(r.header.le_bytes() + seq_bytes(r.system_id@, false) + r.id.le_bytes() + r.padding.le_bytes() + r.general.le_bytes() + seq_bytes(r.name@, false) + r.height.le_bytes() + r.width.le_bytes() + r.face.le_bytes() + r.hair.le_bytes() =~= bytes@.subrange(pos as int, pos + 0x34));
            assert(r.header.le_bytes() + seq_bytes(r.system_id@, false) + r.id.le_bytes() + r.padding.le_bytes() + r.general.le_bytes() + seq_bytes(r.name@, false) + r.height.le_bytes() + r.width.le_bytes() + r.face.le_bytes() + r.hair.le_bytes() + r.eye.le_bytes() =~= bytes@.subrange(pos as int, pos + 0x38));
            assert(r.header.le_bytes() + seq_bytes(r.system_id@, false) + r.id.le_bytes() + r.padding.le_bytes() + r.general.le_bytes() + seq_bytes(r.name@, false) + r.height.le_bytes() + r.width.le_bytes() + r.face.le_bytes() + r.hair.le_bytes() + r.eye.le_bytes() + r.eyebrow.le_bytes() =~= bytes@.subrange(pos as int, pos + 0x3c));
            assert(r.header.le_bytes() + seq_bytes(r.system_id@, false) + r.id.le_bytes() + r.padding.le_bytes() + r.general.le_bytes() + seq_bytes(r.name@, false) + r.height.le_bytes() + r.width.le_bytes() + r.face.le_bytes() + r.hair.le_bytes() + r.eye.le_bytes() + r.eyebrow.le_bytes() + r.nose.le_bytes() =~= bytes@.subrange(pos as int, pos + 0x3e));
            assert(r.header.le_bytes() + seq_bytes(r.system_id@, false) + r.id.le_bytes() + r.padding.le_bytes() + r.general.le_bytes() + seq_bytes(r.name@, false) + r.height.le_bytes() + r.width.le_bytes() + r.face.le_bytes() + r.hair.le_bytes() + r.eye.le_bytes() + r.eyebrow.le_bytes() + r.nose.le_bytes() + r.lip.le_bytes() =~= bytes@.subrange(pos as int, pos + 0x40));
            assert(r.header.le_bytes() + seq_bytes(r.system_id@, false) + r.id.le_bytes() + r.padding.le_bytes() + r.general.le_bytes() + seq_bytes(r.name@, false) + r.height.le_bytes() + r.width.le_bytes() + r.face.le_bytes() + r.hair.le_bytes() + r.eye.le_bytes() + r.eyebrow.le_bytes() + r.nose.le_bytes() + r.lip.le_bytes() + r.misc.le_bytes() =~= bytes@.subrange(pos as int, pos + 0x42));
            assert(r.header.le_bytes() + seq_bytes(r.system_id@, false) + r.id.le_bytes() + r.padding.le_bytes() + r.general.le_bytes() + seq_bytes(r.name@, false) + r.height.le_bytes() + r.width.le_bytes() + r.face.le_bytes() + r.hair.le_bytes() + r.eye.le_bytes() + r.eyebrow.le_bytes() + r.nose.le_bytes() + r.lip.le_bytes() + r.misc.le_bytes() + r.beard.le_bytes() =~= bytes@.subrange(pos as int, pos + 0x44));
            assert(r.header.le_bytes() + seq_bytes(r.system_id@, false) + r.id.le_bytes() + r.padding.le_bytes() + r.general.le_bytes() + seq_bytes(r.name@, false) + r.height.le_bytes() + r.width.le_bytes() + r.face.le_bytes() + r.hair.le_bytes() + r.eye.le_bytes() + r.eyebrow.le_bytes() + r.nose.le_bytes() + r.lip.le_bytes() + r.misc.le_bytes() + r.beard.le_bytes() + r.glass.le_bytes() =~= bytes@.subrange(pos as int, pos + 0x46));
            assert(r.header.le_bytes() + seq_bytes(r.system_id@, false) + r.id.le_bytes() + r.padding.le_bytes() + r.general.le_bytes() + seq_bytes(r.name@, false) + r.height.le_bytes() + r.width.le_bytes() + r.face.le_bytes() + r.hair.le_bytes() + r.eye.le_bytes() + r.eyebrow.le_bytes() + r.nose.le_bytes() + r.lip.le_bytes() + r.misc.le_bytes() + r.beard.le_bytes() + r.glass.le_bytes() + r.mole.le_bytes() =~= bytes@.subrange(pos as int, pos + 0x48));
        }
        r
    }

    exec fn write_be_bytes(&self, bytes: &mut [u8], pos: usize) {
        self.write_le_bytes(bytes, pos);
    }

    exec fn read_be_bytes(bytes: &[u8], pos: usize) -> (r: Self) {
        Self::read_le_bytes(bytes, pos)
    }
}

impl ByteStruct for Profile {
}

/// An owned profile together with its author name.
#[derive(Clone, Copy, Debug, PartialEq)]
pub struct ProfileFull {
    pub main: Profile,
    pub author: [u16; 10],
}

impl ByteStructImpl for ProfileFull {
    open spec fn spec_byte_len() -> nat {
        0x5c
    }

    open spec fn wf(&self) -> bool {
        self.main.wf() && wf_seq(self.author@)
    }

    open spec fn le_bytes(&self) -> Seq<u8> {
        self.main.le_bytes() + seq_bytes(self.author@, false)
    }

    open spec fn be_bytes(&self) -> Seq<u8> {
        self.le_bytes()
    }

    proof fn lemma_len(&self) {
        self.main.lemma_len();
        lemma_seq_bytes_len(self.author@, false);
    }

    proof fn lemma_injective(a: Self, b: Self) {
        a.main.lemma_len();
        lemma_seq_bytes_len(a.author@, false);
        b.main.lemma_len();
        lemma_seq_bytes_len(b.author@, false);
        if a.le_bytes() == b.le_bytes() {
            let sa = a.le_bytes();
            let sb = b.le_bytes();
            assert(seq_bytes(a.author@, false) =~= sa.subrange(0x48, 0x5c));
            assert(seq_bytes(b.author@, false) =~= sb.subrange(0x48, 0x5c));
            assert(a.main.le_bytes() =~= sa.subrange(0, 0x48));
            assert(b.main.le_bytes() =~= sb.subrange(0, 0x48));
            assert(a.main.le_bytes() =~= sa.subrange(0, 0x48));
            assert(b.main.le_bytes() =~= sb.subrange(0, 0x48));
            Profile::lemma_injective(a.main, b.main);
            lemma_seq_bytes_injective(a.author@, b.author@, false);
            assert(a.author =~= b.author);
            assert(a == b);
        }
    }

    exec fn byte_len() -> (n: usize) {
        0x5c
    }

    exec fn write_le_bytes(&self, bytes: &mut [u8], pos: usize) {
        let buf_len = bytes.len();
        proof {
            assert(buf_len == bytes@.len());
            self.main.lemma_len();
            lemma_seq_bytes_len(self.author@, false);
        }
        self.main.write_le_bytes(bytes, pos);
        write_items(self.author.as_slice(), bytes, pos + 0x48, false);
        proof {
            lemma_spliced_append(old(bytes)@, pos as int, self.main.le_bytes(), seq_bytes(self.author@, false));
        }
    }

    exec fn read_le_bytes(bytes: &[u8], pos: usize) -> (r: Self) {
        let buf_len = bytes.len();
        proof {
            assert(buf_len == bytes@.len());
        }
        let main = Profile::read_le_bytes(bytes, pos);
        let author: [u16; 10] = read_array(bytes, pos + 0x48, false);
        let r = ProfileFull { main, author };
        proof {
            assert(r.main.le_bytes() + seq_bytes(r.author@, false) =~= bytes@.subrange(pos as int, pos + 0x5c));
        }
        r
    }

    exec fn write_be_bytes(&self, bytes: &mut [u8], pos: usize) {
        self.write_le_bytes(bytes, pos);
    }

    exec fn read_be_bytes(bytes: &[u8], pos: usize) -> (r: Self) {
        Self::read_le_bytes(bytes, pos)
    }
}

impl ByteStruct for ProfileFull {
}

/// A foreign profile together with its arrival timestamp.
#[derive(Clone, Copy, Debug, PartialEq)]
pub struct ProfileAlt {
    pub main: Profile,
    pub timestamp: u32,
    pub unk: [u8; 8],
}

impl ByteStructImpl for ProfileAlt {
    open spec fn spec_byte_len() -> nat {
        0x54
    }

    open spec fn wf(&self) -> bool {
        self.main.wf() && self.timestamp.wf() && wf_seq(self.unk@)
    }

    open spec fn le_bytes(&self) -> Seq<u8> {
        self.main.le_bytes() + self.timestamp.le_bytes() + seq_bytes(self.unk@, false)
    }

    open spec fn be_bytes(&self) -> Seq<u8> {
        self.le_bytes()
    }

    proof fn lemma_len(&self) {
        self.main.lemma_len();
        self.timestamp.lemma_len();
        lemma_seq_bytes_len(self.unk@, false);
    }

    proof fn lemma_injective(a: Self, b: Self) {
        a.main.lemma_len();
        a.timestamp.lemma_len();
        lemma_seq_bytes_len(a.unk@, false);
        b.main.lemma_len();
        b.timestamp.lemma_len();
        lemma_seq_bytes_len(b.unk@, false);
        if a.le_bytes() == b.le_bytes() {
            let sa = a.le_bytes();
            let sb = b.le_bytes();
            assert(seq_bytes(a.unk@, false) =~= sa.subrange(0x4c, 0x54));
            assert(seq_bytes(b.unk@, false) =~= sb.subrange(0x4c, 0x54));
            assert(a.main.le_bytes() + a.timestamp.le_bytes() =~= sa.subrange(0, 0x4c));
            assert(b.main.le_bytes() + b.timestamp.le_bytes() =~= sb.subrange(0, 0x4c));
            assert(a.timestamp.le_bytes() =~= sa.subrange(0x48, 0x4c));
            assert(b.timestamp.le_bytes() =~= sb.subrange(0x48, 0x4c));
            assert(a.main.le_bytes() =~= sa.subrange(0, 0x48));
            assert(b.main.le_bytes() =~= sb.subrange(0, 0x48));
            assert(a.main.le_bytes() =~= sa.subrange(0, 0x48));
            assert(b.main.le_bytes() =~= sb.subrange(0, 0x48));
            Profile::lemma_injective(a.main, b.main);
            u32::lemma_injective(a.timestamp, b.timestamp);
            lemma_seq_bytes_injective(a.unk@, b.unk@, false);
            assert(a.unk =~= b.unk);
            assert(a == b);
        }
    }

    exec fn byte_len() -> (n: usize) {
        0x54
    }

    exec fn write_le_bytes(&self, bytes: &mut [u8], pos: usize) {
        let buf_len = bytes.len();
        proof {
            assert(buf_len == bytes@.len());
            self.main.lemma_len();
            self.timestamp.lemma_len();
            lemma_seq_bytes_len(self.unk@, false);
        }
        self.main.write_le_bytes(bytes, pos);
        self.timestamp.write_le_bytes(bytes, pos + 0x48);
        proof {
            lemma_spliced_append(old(bytes)@, pos as int, self.main.le_bytes(), self.timestamp.le_bytes());
        }
        write_items(self.unk.as_slice(), bytes, pos + 0x4c, false);
        proof {
            lemma_spliced_append(old(bytes)@, pos as int, self.main.le_bytes() + self.timestamp.le_bytes(), seq_bytes(self.unk@, false));
        }
    }

    exec fn read_le_bytes(bytes: &[u8], pos: usize) -> (r: Self) {
        let buf_len = bytes.len();
        proof {
            assert(buf_len == bytes@.len());
        }
        let main = Profile::read_le_bytes(bytes, pos);
        let timestamp = u32::read_le_bytes(bytes, pos + 0x48);
        let unk: [u8; 8] = read_array(bytes, pos + 0x4c, false);
        let r = ProfileAlt { main, timestamp, unk };
        proof {
            assert(r.main.le_bytes() + r.timestamp.le_bytes() =~= bytes@.subrange(pos as int, pos + 0x4c));
            assert(r.main.le_bytes() + r.timestamp.le_bytes() + seq_bytes(r.unk@, false) =~= bytes@.subrange(pos as int, pos + 0x54));
        }
        r
    }

    exec fn write_be_bytes(&self, bytes: &mut [u8], pos: usize) {
        self.write_le_bytes(bytes, pos);
    }

    exec fn read_be_bytes(bytes: &[u8], pos: usize) -> (r: Self) {
        Self::read_le_bytes(bytes, pos)
    }
}

impl ByteStruct for ProfileAlt {
}

#[derive(Clone, Copy, Debug, PartialEq, Eq, Default)]
pub struct CFHEListNode {
    pub prev: u32,
    pub pf: u32,
    pub next: u32,
    pub nf: u32,
}

impl CFHEListNode {
    /// The fields packed into `raw`, first field in the lowest bits.
    pub open spec fn spec_from_raw(raw: u32) -> CFHEListNode {
        CFHEListNode {
            prev: raw & 0x7fff,
            pf: (raw >> 15) & 0x1,
            next: (raw >> 16) & 0x7fff,
            nf: (raw >> 31) & 0x1,
        }
    }

    /// The raw value holding the fields, first field in the lowest bits.
    pub open spec fn spec_to_raw(self) -> u32 {
        self.prev | (self.pf << 15) | (self.next << 16) | (self.nf << 31)
    }

    pub exec fn from_raw(raw: u32) -> (r: CFHEListNode)
        ensures
            r == CFHEListNode::spec_from_raw(raw),
    {
        CFHEListNode {
            prev: raw & 0x7fff,
            pf: (raw >> 15) & 0x1,
            next: (raw >> 16) & 0x7fff,
            nf: (raw >> 31) & 0x1,
        }
    }

    pub exec fn to_raw(&self) -> (r: u32)
        ensures
            r == self.spec_to_raw(),
    {
        self.prev | (self.pf << 15) | (self.next << 16) | (self.nf << 31)
    }

    /// Unpacking any raw value and packing the fields again gives the
    /// raw value back, and the unpacked fields each fit their width.
    pub proof fn lemma_raw_round_trip(raw: u32)
        ensures
            CFHEListNode::spec_from_raw(raw).wf(),
            CFHEListNode::spec_from_raw(raw).spec_to_raw() == raw,
    {
        assert(((raw & 0x7fff) | (((raw >> 15) & 0x1) << 15) | (((raw >> 16) & 0x7fff) << 16) | (((raw >> 31) & 0x1) << 31)) == raw && raw & 0x7fff < 0x8000 && (raw >> 15) & 0x1 < 0x2 && (raw >> 16) & 0x7fff < 0x8000 && (raw >> 31) & 0x1 < 0x2) by (bit_vector);
    }

    /// Packing well-formed fields and unpacking them returns each field.
    pub proof fn lemma_field_round_trip(v: CFHEListNode)
        requires
            v.wf(),
        ensures
            CFHEListNode::spec_from_raw(v.spec_to_raw()) == v,
    {
        let f_prev = v.prev;
        let f_pf = v.pf;
        let f_next = v.next;
        let f_nf = v.nf;
        assert((f_prev | (f_pf << 15) | (f_next << 16) | (f_nf << 31)) & 0x7fff == f_prev && ((f_prev | (f_pf << 15) | (f_next << 16) | (f_nf << 31)) >> 15) & 0x1 == f_pf && ((f_prev | (f_pf << 15) | (f_next << 16) | (f_nf << 31)) >> 16) & 0x7fff == f_next && ((f_prev | (f_pf << 15) | (f_next << 16) | (f_nf << 31)) >> 31) & 0x1 == f_nf) by (bit_vector)
            requires
                f_prev < 0x8000,
                f_pf < 0x2,
                f_next < 0x8000,
                f_nf < 0x2,
        ;
    }
}

impl ByteStructImpl for CFHEListNode {
    open spec fn spec_byte_len() -> nat {
        4
    }

    open spec fn wf(&self) -> bool {
        self.prev < 0x8000 && self.pf < 0x2 && self.next < 0x8000 && self.nf < 0x2
    }

    open spec fn le_bytes(&self) -> Seq<u8> {
        self.spec_to_raw().le_bytes()
    }

    open spec fn be_bytes(&self) -> Seq<u8> {
        self.spec_to_raw().be_bytes()
    }

    proof fn lemma_len(&self) {
    }

    proof fn lemma_injective(a: Self, b: Self) {
        u32::lemma_injective(a.spec_to_raw(), b.spec_to_raw());
        CFHEListNode::lemma_field_round_trip(a);
        CFHEListNode::lemma_field_round_trip(b);
    }

    exec fn byte_len() -> (n: usize) {
        4
    }

    exec fn write_le_bytes(&self, bytes: &mut [u8], pos: usize) {
        self.to_raw().write_le_bytes(bytes, pos);
    }

    exec fn read_le_bytes(bytes: &[u8], pos: usize) -> (r: Self) {
        let raw = u32::read_le_bytes(bytes, pos);
        proof {
            CFHEListNode::lemma_raw_round_trip(raw);
        }
        CFHEListNode::from_raw(raw)
    }

    exec fn write_be_bytes(&self, bytes: &mut [u8], pos: usize) {
        self.to_raw().write_be_bytes(bytes, pos);
    }

    exec fn read_be_bytes(bytes: &[u8], pos: usize) -> (r: Self) {
        let raw = u32::read_be_bytes(bytes, pos);
        proof {
            CFHEListNode::lemma_raw_round_trip(raw);
        }
        CFHEListNode::from_raw(raw)
    }
}

/// A linked-list entry of the foreign-profile index.
#[derive(Clone, Copy, Debug, PartialEq)]
pub struct CFHEObject {
    pub profile_id: ProfileId,
    pub list_node: CFHEListNode,
}

impl ByteStructImpl for CFHEObject {
    open spec fn spec_byte_len() -> nat {
        0xe
    }

    open spec fn wf(&self) -> bool {
        self.profile_id.wf() && self.list_node.wf()
    }

    open spec fn le_bytes(&self) -> Seq<u8> {
        self.profile_id.le_bytes() + self.list_node.le_bytes()
    }

    open spec fn be_bytes(&self) -> Seq<u8> {
        self.le_bytes()
    }

    proof fn lemma_len(&self) {
        self.profile_id.lemma_len();
        self.list_node.lemma_len();
    }

    proof fn lemma_injective(a: Self, b: Self) {
        a.profile_id.lemma_len();
        a.list_node.lemma_len();
        b.profile_id.lemma_len();
        b.list_node.lemma_len();
        if a.le_bytes() == b.le_bytes() {
            let sa = a.le_bytes();
            let sb = b.le_bytes();
            assert(a.list_node.le_bytes() =~= sa.subrange(0xa, 0xe));
            assert(b.list_node.le_bytes() =~= sb.subrange(0xa, 0xe));
            assert(a.profile_id.le_bytes() =~= sa.subrange(0, 0xa));
            assert(b.profile_id.le_bytes() =~= sb.subrange(0, 0xa));
            assert(a.profile_id.le_bytes() =~= sa.subrange(0, 0xa));
            assert(b.profile_id.le_bytes() =~= sb.subrange(0, 0xa));
            ProfileId::lemma_injective(a.profile_id, b.profile_id);
            CFHEListNode::lemma_injective(a.list_node, b.list_node);
            assert(a == b);
        }
    }

    exec fn byte_len() -> (n: usize) {
        0xe
    }

    exec fn write_le_bytes(&self, bytes: &mut [u8], pos: usize) {
        let buf_len = bytes.len();
        proof {
            assert(buf_len == bytes@.len());
            self.profile_id.lemma_len();
            self.list_node.lemma_len();
        }
        self.profile_id.write_le_bytes(bytes, pos);
        self.list_node.write_le_bytes(bytes, pos + 0xa);
        proof {
            lemma_spliced_append(old(bytes)@, pos as int, self.profile_id.le_bytes(), self.list_node.le_bytes());
        }
    }

    exec fn read_le_bytes(bytes: &[u8], pos: usize) -> (r: Self) {
        let buf_len = bytes.len();
        proof {
            assert(buf_len == bytes@.len());
        }
        let profile_id = ProfileId::read_le_bytes(bytes, pos);
        let list_node = CFHEListNode::read_le_bytes(bytes, pos + 0xa);
        let r = CFHEObject { profile_id, list_node };
        proof {
            assert(r.profile_id.le_bytes() + r.list_node.le_bytes() =~= bytes@.subrange(pos as int, pos + 0xe));
        }
        r
    }

    exec fn write_be_bytes(&self, bytes: &mut [u8], pos: usize) {
        self.write_le_bytes(bytes, pos);
    }

    exec fn read_be_bytes(bytes: &[u8], pos: usize) -> (r: Self) {
        Self::read_le_bytes(bytes, pos)
    }
}

impl ByteStruct for CFHEObject {
}

/// The whole save-file database.
#[derive(Clone, Copy, Debug, PartialEq)]
pub struct Database {
    pub cfog: [u8; 4],
    pub magic: u32,
    pub owned: [ProfileFull; 100],
    pub cfhe: [u8; 4],
    pub cfhe_tail: u16,
    pub cfhe_head: u16,
    pub cfhe_objects: [CFHEObject; 3000],
    pub unk: [u8; 14],
    pub crc_a: u16,
    pub cfra: u32,
    pub invited_count: u32,
    pub invited_order: [u8; 100],
    pub invited: [Profile; 100],
    pub unk2: [u8; 18],
    pub crc_b: u16,
    pub cfhe_profiles: [ProfileAlt; 3000],
}

impl ByteStructImpl for Database {
    open spec fn spec_byte_len() -> nat {
        0x4bd20
    }

    open spec fn wf(&self) -> bool {
        wf_seq(self.cfog@) && self.magic.wf() && wf_seq(self.owned@) && wf_seq(self.cfhe@) && self.cfhe_tail.wf() && self.cfhe_head.wf() && wf_seq(self.cfhe_objects@) && wf_seq(self.unk@) && self.crc_a.wf() && self.cfra.wf() && self.invited_count.wf() && wf_seq(self.invited_order@) && wf_seq(self.invited@) && wf_seq(self.unk2@) && self.crc_b.wf() && wf_seq(self.cfhe_profiles@)
    }

    open spec fn le_bytes(&self) -> Seq<u8> {
        seq_bytes(self.cfog@, false) + self.magic.le_bytes() + seq_bytes(self.owned@, false) + seq_bytes(self.cfhe@, false) + self.cfhe_tail.le_bytes() + self.cfhe_head.le_bytes() + seq_bytes(self.cfhe_objects@, false) + seq_bytes(self.unk@, false) + self.crc_a.le_bytes() + self.cfra.le_bytes() + self.invited_count.le_bytes() + seq_bytes(self.invited_order@, false) + seq_bytes(self.invited@, false) + seq_bytes(self.unk2@, false) + self.crc_b.le_bytes() + seq_bytes(self.cfhe_profiles@, false)
    }

    open spec fn be_bytes(&self) -> Seq<u8> {
        self.le_bytes()
    }

    proof fn lemma_len(&self) {
        lemma_seq_bytes_len(self.cfog@, false);
        self.magic.lemma_len();
        lemma_seq_bytes_len(self.owned@, false);
        lemma_seq_bytes_len(self.cfhe@, false);
        self.cfhe_tail.lemma_len();
        self.cfhe_head.lemma_len();
        lemma_seq_bytes_len(self.cfhe_objects@, false);
        lemma_seq_bytes_len(self.unk@, false);
        self.crc_a.lemma_len();
        self.cfra.lemma_len();
        self.invited_count.lemma_len();
        lemma_seq_bytes_len(self.invited_order@, false);
        lemma_seq_bytes_len(self.invited@, false);
        lemma_seq_bytes_len(self.unk2@, false);
        self.crc_b.lemma_len();
        lemma_seq_bytes_len(self.cfhe_profiles@, false);
    }

    #[verifier::spinoff_prover]
    #[verifier::rlimit(100)]
    proof fn lemma_injective(a: Self, b: Self) {
        lemma_seq_bytes_len(a.cfog@, false);
        a.magic.lemma_len();
        lemma_seq_bytes_len(a.owned@, false);
        lemma_seq_bytes_len(a.cfhe@, false);
        a.cfhe_tail.lemma_len();
        a.cfhe_head.lemma_len();
        lemma_seq_bytes_len(a.cfhe_objects@, false);
        lemma_seq_bytes_len(a.unk@, false);
        a.crc_a.lemma_len();
        a.cfra.lemma_len();
        a.invited_count.lemma_len();
        lemma_seq_bytes_len(a.invited_order@, false);
        lemma_seq_bytes_len(a.invited@, false);
        lemma_seq_bytes_len(a.unk2@, false);
        a.crc_b.lemma_len();
        lemma_seq_bytes_len(a.cfhe_profiles@, false);
        lemma_seq_bytes_len(b.cfog@, false);
        b.magic.lemma_len();
        lemma_seq_bytes_len(b.owned@, false);
        lemma_seq_bytes_len(b.cfhe@, false);
        b.cfhe_tail.lemma_len();
        b.cfhe_head.lemma_len();
        lemma_seq_bytes_len(b.cfhe_objects@, false);
        lemma_seq_bytes_len(b.unk@, false);
        b.crc_a.lemma_len();
        b.cfra.lemma_len();
        b.invited_count.lemma_len();
        lemma_seq_bytes_len(b.invited_order@, false);
        lemma_seq_bytes_len(b.invited@, false);
        lemma_seq_bytes_len(b.unk2@, false);
        b.crc_b.lemma_len();
        lemma_seq_bytes_len(b.cfhe_profiles@, false);
        if a.le_bytes() == b.le_bytes() {
            let sa = a.le_bytes();
            let sb = b.le_bytes();
            assert(seq_bytes(a.cfhe_profiles@, false) =~= sa.subrange(0xe4c0, 0x4bd20));
            assert(seq_bytes(b.cfhe_profiles@, false) =~= sb.subrange(0xe4c0, 0x4bd20));
            assert(seq_bytes(a.cfog@, false) + a.magic.le_bytes() + seq_bytes(a.owned@, false) + seq_bytes(a.cfhe@, false) + a.cfhe_tail.le_bytes() + a.cfhe_head.le_bytes() + seq_bytes(a.cfhe_objects@, false) + seq_bytes(a.unk@, false) + a.crc_a.le_bytes() + a.cfra.le_bytes() + a.invited_count.le_bytes() + seq_bytes(a.invited_order@, false) + seq_bytes(a.invited@, false) + seq_bytes(a.unk2@, false) + a.crc_b.le_bytes() =~= sa.subrange(0, 0xe4c0));
            assert(seq_bytes(b.cfog@, false) + b.magic.le_bytes() + seq_bytes(b.owned@, false) + seq_bytes(b.cfhe@, false) + b.cfhe_tail.le_bytes() + b.cfhe_head.le_bytes() + seq_bytes(b.cfhe_objects@, false) + seq_bytes(b.unk@, false) + b.crc_a.le_bytes() + b.cfra.le_bytes() + b.invited_count.le_bytes() + seq_bytes(b.invited_order@, false) + seq_bytes(b.invited@, false) + seq_bytes(b.unk2@, false) + b.crc_b.le_bytes() =~= sb.subrange(0, 0xe4c0));
            assert(a.crc_b.le_bytes() =~= sa.subrange(0xe4be, 0xe4c0));
            assert(b.crc_b.le_bytes() =~= sb.subrange(0xe4be, 0xe4c0));
            assert(seq_bytes(a.cfog@, false) + a.magic.le_bytes() + seq_bytes(a.owned@, false) + seq_bytes(a.cfhe@, false) + a.cfhe_tail.le_bytes() + a.cfhe_head.le_bytes() + seq_bytes(a.cfhe_objects@, false) + seq_bytes(a.unk@, false) + a.crc_a.le_bytes() + a.cfra.le_bytes() + a.invited_count.le_bytes() + seq_bytes(a.invited_order@, false) + seq_bytes(a.invited@, false) + seq_bytes(a.unk2@, false) =~= sa.subrange(0, 0xe4be));
            assert(seq_bytes(b.cfog@, false) + b.magic.le_bytes() + seq_bytes(b.owned@, false) + seq_bytes(b.cfhe@, false) + b.cfhe_tail.le_bytes() + b.cfhe_head.le_bytes() + seq_bytes(b.cfhe_objects@, false) + seq_bytes(b.unk@, false) + b.crc_a.le_bytes() + b.cfra.le_bytes() + b.invited_count.le_bytes() + seq_bytes(b.invited_order@, false) + seq_bytes(b.invited@, false) + seq_bytes(b.unk2@, false) =~= sb.subrange(0, 0xe4be));
            assert(seq_bytes(a.unk2@, false) =~= sa.subrange(0xe4ac, 0xe4be));
            assert(seq_bytes(b.unk2@, false) =~= sb.subrange(0xe4ac, 0xe4be));
            assert(seq_bytes(a.cfog@, false) + a.magic.le_bytes() + seq_bytes(a.owned@, false) + seq_bytes(a.cfhe@, false) + a.cfhe_tail.le_bytes() + a.cfhe_head.le_bytes() + seq_bytes(a.cfhe_objects@, false) + seq_bytes(a.unk@, false) + a.crc_a.le_bytes() + a.cfra.le_bytes() + a.invited_count.le_bytes() + seq_bytes(a.invited_order@, false) + seq_bytes(a.invited@, false) =~= sa.subrange(0, 0xe4ac));
            assert(seq_bytes(b.cfog@, false) + b.magic.le_bytes() + seq_bytes(b.owned@, false) + seq_bytes(b.cfhe@, false) + b.cfhe_tail.le_bytes() + b.cfhe_head.le_bytes() + seq_bytes(b.cfhe_objects@, false) + seq_bytes(b.unk@, false) + b.crc_a.le_bytes() + b.cfra.le_bytes() + b.invited_count.le_bytes() + seq_bytes(b.invited_order@, false) + seq_bytes(b.invited@, false) =~= sb.subrange(0, 0xe4ac));
            assert(seq_bytes(a.invited@, false) =~= sa.subrange(0xc88c, 0xe4ac));
            assert(seq_bytes(b.invited@, false) =~= sb.subrange(0xc88c, 0xe4ac));
            assert(seq_bytes(a.cfog@, false) + a.magic.le_bytes() + seq_bytes(a.owned@, false) + seq_bytes(a.cfhe@, false) + a.cfhe_tail.le_bytes() + a.cfhe_head.le_bytes() + seq_bytes(a.cfhe_objects@, false) + seq_bytes(a.unk@, false) + a.crc_a.le_bytes() + a.cfra.le_bytes() + a.invited_count.le_bytes() + seq_bytes(a.invited_order@, false) =~= sa.subrange(0, 0xc88c));
            assert(seq_bytes(b.cfog@, false) + b.magic.le_bytes() + seq_bytes(b.owned@, false) + seq_bytes(b.cfhe@, false) + b.cfhe_tail.le_bytes() + b.cfhe_head.le_bytes() + seq_bytes(b.cfhe_objects@, false) + seq_bytes(b.unk@, false) + b.crc_a.le_bytes() + b.cfra.le_bytes() + b.invited_count.le_bytes() + seq_bytes(b.invited_order@, false) =~= sb.subrange(0, 0xc88c));
            assert(seq_bytes(a.invited_order@, false) =~= sa.subrange(0xc828, 0xc88c));
            assert(seq_bytes(b.invited_order@, false) =~= sb.subrange(0xc828, 0xc88c));
            assert(seq_bytes(a.cfog@, false) + a.magic.le_bytes() + seq_bytes(a.owned@, false) + seq_bytes(a.cfhe@, false) + a.cfhe_tail.le_bytes() + a.cfhe_head.le_bytes() + seq_bytes(a.cfhe_objects@, false) + seq_bytes(a.unk@, false) + a.crc_a.le_bytes() + a.cfra.le_bytes() + a.invited_count.le_bytes() =~= sa.subrange(0, 0xc828));
            assert(seq_bytes(b.cfog@, false) + b.magic.le_bytes() + seq_bytes(b.owned@, false) + seq_bytes(b.cfhe@, false) + b.cfhe_tail.le_bytes() + b.cfhe_head.le_bytes() + seq_bytes(b.cfhe_objects@, false) + seq_bytes(b.unk@, false) + b.crc_a.le_bytes() + b.cfra.le_bytes() + b.invited_count.le_bytes() =~= sb.subrange(0, 0xc828));
            assert(a.invited_count.le_bytes() =~= sa.subrange(0xc824, 0xc828));
            assert(b.invited_count.le_bytes() =~= sb.subrange(0xc824, 0xc828));
            assert(seq_bytes(a.cfog@, false) + a.magic.le_bytes() + seq_bytes(a.owned@, false) + seq_bytes(a.cfhe@, false) + a.cfhe_tail.le_bytes() + a.cfhe_head.le_bytes() + seq_bytes(a.cfhe_objects@, false) + seq_bytes(a.unk@, false) + a.crc_a.le_bytes() + a.cfra.le_bytes() =~= sa.subrange(0, 0xc824));
            assert(seq_bytes(b.cfog@, false) + b.magic.le_bytes() + seq_bytes(b.owned@, false) + seq_bytes(b.cfhe@, false) + b.cfhe_tail.le_bytes() + b.cfhe_head.le_bytes() + seq_bytes(b.cfhe_objects@, false) + seq_bytes(b.unk@, false) + b.crc_a.le_bytes() + b.cfra.le_bytes() =~= sb.subrange(0, 0xc824));
            assert(a.cfra.le_bytes() =~= sa.subrange(0xc820, 0xc824));
            assert(b.cfra.le_bytes() =~= sb.subrange(0xc820, 0xc824));
            assert(seq_bytes(a.cfog@, false) + a.magic.le_bytes() + seq_bytes(a.owned@, false) + seq_bytes(a.cfhe@, false) + a.cfhe_tail.le_bytes() + a.cfhe_head.le_bytes() + seq_bytes(a.cfhe_objects@, false) + seq_bytes(a.unk@, false) + a.crc_a.le_bytes() =~= sa.subrange(0, 0xc820));
            assert(seq_bytes(b.cfog@, false) + b.magic.le_bytes() + seq_bytes(b.owned@, false) + seq_bytes(b.cfhe@, false) + b.cfhe_tail.le_bytes() + b.cfhe_head.le_bytes() + seq_bytes(b.cfhe_objects@, false) + seq_bytes(b.unk@, false) + b.crc_a.le_bytes() =~= sb.subrange(0, 0xc820));
            assert(a.crc_a.le_bytes() =~= sa.subrange(0xc81e, 0xc820));
            assert(b.crc_a.le_bytes() =~= sb.subrange(0xc81e, 0xc820));
            assert(seq_bytes(a.cfog@, false) + a.magic.le_bytes() + seq_bytes(a.owned@, false) + seq_bytes(a.cfhe@, false) + a.cfhe_tail.le_bytes() + a.cfhe_head.le_bytes() + seq_bytes(a.cfhe_objects@, false) + seq_bytes(a.unk@, false) =~= sa.subrange(0, 0xc81e));
            assert(seq_bytes(b.cfog@, false) + b.magic.le_bytes() + seq_bytes(b.owned@, false) + seq_bytes(b.cfhe@, false) + b.cfhe_tail.le_bytes() + b.cfhe_head.le_bytes() + seq_bytes(b.cfhe_objects@, false) + seq_bytes(b.unk@, false) =~= sb.subrange(0, 0xc81e));
            assert(seq_bytes(a.unk@, false) =~= sa.subrange(0xc810, 0xc81e));
            assert(seq_bytes(b.unk@, false) =~= sb.subrange(0xc810, 0xc81e));
            assert(seq_bytes(a.cfog@, false) + a.magic.le_bytes() + seq_bytes(a.owned@, false) + seq_bytes(a.cfhe@, false) + a.cfhe_tail.le_bytes() + a.cfhe_head.le_bytes() + seq_bytes(a.cfhe_objects@, false) =~= sa.subrange(0, 0xc810));
            assert(seq_bytes(b.cfog@, false) + b.magic.le_bytes() + seq_bytes(b.owned@, false) + seq_bytes(b.cfhe@, false) + b.cfhe_tail.le_bytes() + b.cfhe_head.le_bytes() + seq_bytes(b.cfhe_objects@, false) =~= sb.subrange(0, 0xc810));
            assert(seq_bytes(a.cfhe_objects@, false) =~= sa.subrange(0x2400, 0xc810));
            assert(seq_bytes(b.cfhe_objects@, false) =~= sb.subrange(0x2400, 0xc810));
            assert(seq_bytes(a.cfog@, false) + a.magic.le_bytes() + seq_bytes(a.owned@, false) + seq_bytes(a.cfhe@, false) + a.cfhe_tail.le_bytes() + a.cfhe_head.le_bytes() =~= sa.subrange(0, 0x2400));
            assert(seq_bytes(b.cfog@, false) + b.magic.le_bytes() + seq_bytes(b.owned@, false) + seq_bytes(b.cfhe@, false) + b.cfhe_tail.le_bytes() + b.cfhe_head.le_bytes() =~= sb.subrange(0, 0x2400));
            assert(a.cfhe_head.le_bytes() =~= sa.subrange(0x23fe, 0x2400));
            assert(b.cfhe_head.le_bytes() =~= sb.subrange(0x23fe, 0x2400));
            assert(seq_bytes(a.cfog@, false) + a.magic.le_bytes() + seq_bytes(a.owned@, false) + seq_bytes(a.cfhe@, false) + a.cfhe_tail.le_bytes() =~= sa.subrange(0, 0x23fe));
            assert(seq_bytes(b.cfog@, false) + b.magic.le_bytes() + seq_bytes(b.owned@, false) + seq_bytes(b.cfhe@, false) + b.cfhe_tail.le_bytes() =~= sb.subrange(0, 0x23fe));
            assert(a.cfhe_tail.le_bytes() =~= sa.subrange(0x23fc, 0x23fe));
            assert(b.cfhe_tail.le_bytes() =~= sb.subrange(0x23fc, 0x23fe));
            assert(seq_bytes(a.cfog@, false) + a.magic.le_bytes() + seq_bytes(a.owned@, false) + seq_bytes(a.cfhe@, false) =~= sa.subrange(0, 0x23fc));
            assert(seq_bytes(b.cfog@, false) + b.magic.le_bytes() + seq_bytes(b.owned@, false) + seq_bytes(b.cfhe@, false) =~= sb.subrange(0, 0x23fc));
            assert(seq_bytes(a.cfhe@, false) =~= sa.subrange(0x23f8, 0x23fc));
            assert(seq_bytes(b.cfhe@, false) =~= sb.subrange(0x23f8, 0x23fc));
            assert(seq_bytes(a.cfog@, false) + a.magic.le_bytes() + seq_bytes(a.owned@, false) =~= sa.subrange(0, 0x23f8));
            assert(seq_bytes(b.cfog@, false) + b.magic.le_bytes() + seq_bytes(b.owned@, false) =~= sb.subrange(0, 0x23f8));
            assert(seq_bytes(a.owned@, false) =~= sa.subrange(8, 0x23f8));
            assert(seq_bytes(b.owned@, false) =~= sb.subrange(8, 0x23f8));
            assert(seq_bytes(a.cfog@, false) + a.magic.le_bytes() =~= sa.subrange(0, 8));
            assert(seq_bytes(b.cfog@, false) + b.magic.le_bytes() =~= sb.subrange(0, 8));
            assert(a.magic.le_bytes() =~= sa.subrange(4, 8));
            assert(b.magic.le_bytes() =~= sb.subrange(4, 8));
            assert(seq_bytes(a.cfog@, false) =~= sa.subrange(0, 4));
            assert(seq_bytes(b.cfog@, false) =~= sb.subrange(0, 4));
            assert(seq_bytes(a.cfog@, false) =~= sa.subrange(0, 4));
            assert(seq_bytes(b.cfog@, false) =~= sb.subrange(0, 4));
            lemma_seq_bytes_injective(a.cfog@, b.cfog@, false);
            assert(a.cfog =~= b.cfog);
            u32::lemma_injective(a.magic, b.magic);
            lemma_seq_bytes_injective(a.owned@, b.owned@, false);
            assert(a.owned =~= b.owned);
            lemma_seq_bytes_injective(a.cfhe@, b.cfhe@, false);
            assert(a.cfhe =~= b.cfhe);
            u16::lemma_injective(a.cfhe_tail, b.cfhe_tail);
            u16::lemma_injective(a.cfhe_head, b.cfhe_head);
            lemma_seq_bytes_injective(a.cfhe_objects@, b.cfhe_objects@, false);
            assert(a.cfhe_objects =~= b.cfhe_objects);
            lemma_seq_bytes_injective(a.unk@, b.unk@, false);
            assert(a.unk =~= b.unk);
            u16::lemma_injective(a.crc_a, b.crc_a);
            u32::lemma_injective(a.cfra, b.cfra);
            u32::lemma_injective(a.invited_count, b.invited_count);
            lemma_seq_bytes_injective(a.invited_order@, b.invited_order@, false);
            assert(a.invited_order =~= b.invited_order);
            lemma_seq_bytes_injective(a.invited@, b.invited@, false);
            assert(a.invited =~= b.invited);
            lemma_seq_bytes_injective(a.unk2@, b.unk2@, false);
            assert(a.unk2 =~= b.unk2);
            u16::lemma_injective(a.crc_b, b.crc_b);
            lemma_seq_bytes_injective(a.cfhe_profiles@, b.cfhe_profiles@, false);
            assert(a.cfhe_profiles =~= b.cfhe_profiles);
            assert(a == b);
        }
    }

    exec fn byte_len() -> (n: usize) {
        0x4bd20
    }

    #[verifier::spinoff_prover]
    #[verifier::rlimit(100)]
    exec fn write_le_bytes(&self, bytes: &mut [u8], pos: usize) {
        let buf_len = bytes.len();
        proof {
            assert(buf_len == bytes@.len());
            lemma_seq_bytes_len(self.cfog@, false);
            self.magic.lemma_len();
            lemma_seq_bytes_len(self.owned@, false);
            lemma_seq_bytes_len(self.cfhe@, false);
            self.cfhe_tail.lemma_len();
            self.cfhe_head.lemma_len();
            lemma_seq_bytes_len(self.cfhe_objects@, false);
            lemma_seq_bytes_len(self.unk@, false);
            self.crc_a.lemma_len();
            self.cfra.lemma_len();
            self.invited_count.lemma_len();
            lemma_seq_bytes_len(self.invited_order@, false);
            lemma_seq_bytes_len(self.invited@, false);
            lemma_seq_bytes_len(self.unk2@, false);
            self.crc_b.lemma_len();
            lemma_seq_bytes_len(self.cfhe_profiles@, false);
        }
        write_items(self.cfog.as_slice(), bytes, pos, false);
        self.magic.write_le_bytes(bytes, pos + 4);
        proof {
            lemma_spliced_append(old(bytes)@, pos as int, seq_bytes(self.cfog@, false), self.magic.le_bytes());
        }
        write_items(self.owned.as_slice(), bytes, pos + 8, false);
        proof {
            lemma_spliced_append(old(bytes)@, pos as int, seq_bytes(self.cfog@, false) + self.magic.le_bytes(), seq_bytes(self.owned@, false));
        }
        write_items(self.cfhe.as_slice(), bytes, pos + 0x23f8, false);
        proof {
            lemma_spliced_append(old(bytes)@, pos as int, seq_bytes(self.cfog@, false) + self.magic.le_bytes() + seq_bytes(self.owned@, false), seq_bytes(self.cfhe@, false));
        }
        self.cfhe_tail.write_le_bytes(bytes, pos + 0x23fc);
        proof {
            lemma_spliced_append(old(bytes)@, pos as int, seq_bytes(self.cfog@, false) + self.magic.le_bytes() + seq_bytes(self.owned@, false) + seq_bytes(self.cfhe@, false), self.cfhe_tail.le_bytes());
        }
        self.cfhe_head.write_le_bytes(bytes, pos + 0x23fe);
        proof {
            lemma_spliced_append(old(bytes)@, pos as int, seq_bytes(self.cfog@, false) + self.magic.le_bytes() + seq_bytes(self.owned@, false) + seq_bytes(self.cfhe@, false) + self.cfhe_tail.le_bytes(), self.cfhe_head.le_bytes());
        }
        write_items(self.cfhe_objects.as_slice(), bytes, pos + 0x2400, false);
        proof {
            lemma_spliced_append(old(bytes)@, pos as int, seq_bytes(self.cfog@, false) + self.magic.le_bytes() + seq_bytes(self.owned@, false) + seq_bytes(self.cfhe@, false) + self.cfhe_tail.le_bytes() + self.cfhe_head.le_bytes(), seq_bytes(self.cfhe_objects@, false));
        }
        write_items(self.unk.as_slice(), bytes, pos + 0xc810, false);
        proof {
            lemma_spliced_append(old(bytes)@, pos as int, seq_bytes(self.cfog@, false) + self.magic.le_bytes() + seq_bytes(self.owned@, false) + seq_bytes(self.cfhe@, false) + self.cfhe_tail.le_bytes() + self.cfhe_head.le_bytes() + seq_bytes(self.cfhe_objects@, false), seq_bytes(self.unk@, false));
        }
        self.crc_a.write_le_bytes(bytes, pos + 0xc81e);
        proof {
            lemma_spliced_append(old(bytes)@, pos as int, seq_bytes(self.cfog@, false) + self.magic.le_bytes() + seq_bytes(self.owned@, false) + seq_bytes(self.cfhe@, false) + self.cfhe_tail.le_bytes() + self.cfhe_head.le_bytes() + seq_bytes(self.cfhe_objects@, false) + seq_bytes(self.unk@, false), self.crc_a.le_bytes());
        }
        self.cfra.write_le_bytes(bytes, pos + 0xc820);
        proof {
            lemma_spliced_append(old(bytes)@, pos as int, seq_bytes(self.cfog@, false) + self.magic.le_bytes() + seq_bytes(self.owned@, false) + seq_bytes(self.cfhe@, false) + self.cfhe_tail.le_bytes() + self.cfhe_head.le_bytes() + seq_bytes(self.cfhe_objects@, false) + seq_bytes(self.unk@, false) + self.crc_a.le_bytes(), self.cfra.le_bytes());
        }
        self.invited_count.write_le_bytes(bytes, pos + 0xc824);
        proof {
            lemma_spliced_append(old(bytes)@, pos as int, seq_bytes(self.cfog@, false) + self.magic.le_bytes() + seq_bytes(self.owned@, false) + seq_bytes(self.cfhe@, false) + self.cfhe_tail.le_bytes() + self.cfhe_head.le_bytes() + seq_bytes(self.cfhe_objects@, false) + seq_bytes(self.unk@, false) + self.crc_a.le_bytes() + self.cfra.le_bytes(), self.invited_count.le_bytes());
        }
        write_items(self.invited_order.as_slice(), bytes, pos + 0xc828, false);
        proof {
            lemma_spliced_append(old(bytes)@, pos as int, seq_bytes(self.cfog@, false) + self.magic.le_bytes() + seq_bytes(self.owned@, false) + seq_bytes(self.cfhe@, false) + self.cfhe_tail.le_bytes() + self.cfhe_head.le_bytes() + seq_bytes(self.cfhe_objects@, false) + seq_bytes(self.unk@, false) + self.crc_a.le_bytes() + self.cfra.le_bytes() + self.invited_count.le_bytes(), seq_bytes(self.invited_order@, false));
        }
        write_items(self.invited.as_slice(), bytes, pos + 0xc88c, false);
        proof {
            lemma_spliced_append(old(bytes)@, pos as int, seq_bytes(self.cfog@, false) + self.magic.le_bytes() + seq_bytes(self.owned@, false) + seq_bytes(self.cfhe@, false) + self.cfhe_tail.le_bytes() + self.cfhe_head.le_bytes() + seq_bytes(self.cfhe_objects@, false) + seq_bytes(self.unk@, false) + self.crc_a.le_bytes() + self.cfra.le_bytes() + self.invited_count.le_bytes() + seq_bytes(self.invited_order@, false), seq_bytes(self.invited@, false));
        }
        write_items(self.unk2.as_slice(), bytes, pos + 0xe4ac, false);
        proof {
            lemma_spliced_append(old(bytes)@, pos as int, seq_bytes(self.cfog@, false) + self.magic.le_bytes() + seq_bytes(self.owned@, false) + seq_bytes(self.cfhe@, false) + self.cfhe_tail.le_bytes() + self.cfhe_head.le_bytes() + seq_bytes(self.cfhe_objects@, false) + seq_bytes(self.unk@, false) + self.crc_a.le_bytes() + self.cfra.le_bytes() + self.invited_count.le_bytes() + seq_bytes(self.invited_order@, false) + seq_bytes(self.invited@, false), seq_bytes(self.unk2@, false));
        }
        self.crc_b.write_le_bytes(bytes, pos + 0xe4be);
        proof {
            lemma_spliced_append(old(bytes)@, pos as int, seq_bytes(self.cfog@, false) + self.magic.le_bytes() + seq_bytes(self.owned@, false) + seq_bytes(self.cfhe@, false) + self.cfhe_tail.le_bytes() + self.cfhe_head.le_bytes() + seq_bytes(self.cfhe_objects@, false) + seq_bytes(self.unk@, false) + self.crc_a.le_bytes() + self.cfra.le_bytes() + self.invited_count.le_bytes() + seq_bytes(self.invited_order@, false) + seq_bytes(self.invited@, false) + seq_bytes(self.unk2@, false), self.crc_b.le_bytes());
        }
        write_items(self.cfhe_profiles.as_slice(), bytes, pos + 0xe4c0, false);
        proof {
            lemma_spliced_append(old(bytes)@, pos as int, seq_bytes(self.cfog@, false) + self.magic.le_bytes() + seq_bytes(self.owned@, false) + seq_bytes(self.cfhe@, false) + self.cfhe_tail.le_bytes() + self.cfhe_head.le_bytes() + seq_bytes(self.cfhe_objects@, false) + seq_bytes(self.unk@, false) + self.crc_a.le_bytes() + self.cfra.le_bytes() + self.invited_count.le_bytes() + seq_bytes(self.invited_order@, false) + seq_bytes(self.invited@, false) + seq_bytes(self.unk2@, false) + self.crc_b.le_bytes(), seq_bytes(self.cfhe_profiles@, false));
        }
    }

    #[verifier::spinoff_prover]
    #[verifier::rlimit(100)]
    exec fn read_le_bytes(bytes: &[u8], pos: usize) -> (r: Self) {
        let buf_len = bytes.len();
        proof {
            assert(buf_len == bytes@.len());
        }
        let cfog: [u8; 4] = read_array(bytes, pos, false);
        let magic = u32::read_le_bytes(bytes, pos + 4);
        let owned: [ProfileFull; 100] = read_array(bytes, pos + 8, false);
        let cfhe: [u8; 4] = read_array(bytes, pos + 0x23f8, false);
        let cfhe_tail = u16::read_le_bytes(bytes, pos + 0x23fc);
        let cfhe_head = u16::read_le_bytes(bytes, pos + 0x23fe);
        let cfhe_objects: [CFHEObject; 3000] = read_array(bytes, pos + 0x2400, false);
        let unk: [u8; 14] = read_array(bytes, pos + 0xc810, false);
        let crc_a = u16::read_le_bytes(bytes, pos + 0xc81e);
        let cfra = u32::read_le_bytes(bytes, pos + 0xc820);
        let invited_count = u32::read_le_bytes(bytes, pos + 0xc824);
        let invited_order: [u8; 100] = read_array(bytes, pos + 0xc828, false);
        let invited: [Profile; 100] = read_array(bytes, pos + 0xc88c, false);
        let unk2: [u8; 18] = read_array(bytes, pos + 0xe4ac, false);
        let crc_b = u16::read_le_bytes(bytes, pos + 0xe4be);
        let cfhe_profiles: [ProfileAlt; 3000] = read_array(bytes, pos + 0xe4c0, false);
        let r = Database { cfog, magic, owned, cfhe, cfhe_tail, cfhe_head, cfhe_objects, unk, crc_a, cfra, invited_count, invited_order, invited, unk2, crc_b, cfhe_profiles };
        proof {
            assert(seq_bytes(r.cfog@, false) + r.magic.le_bytes() =~= bytes@.subrange(pos as int, pos + 8));
            assert(seq_bytes(r.cfog@, false) + r.magic.le_bytes() + seq_bytes(r.owned@, false) =~= bytes@.subrange(pos as int, pos + 0x23f8));
            assert(seq_bytes(r.cfog@, false) + r.magic.le_bytes() + seq_bytes(r.owned@, false) + seq_bytes(r.cfhe@, false) =~= bytes@.subrange(pos as int, pos + 0x23fc));
            assert(seq_bytes(r.cfog@, false) + r.magic.le_bytes() + seq_bytes(r.owned@, false) + seq_bytes(r.cfhe@, false) + r.cfhe_tail.le_bytes() =~= bytes@.subrange(pos as int, pos + 0x23fe));
            assert(seq_bytes(r.cfog@, false) + r.magic.le_bytes() + seq_bytes(r.owned@, false) + seq_bytes(r.cfhe@, false) + r.cfhe_tail.le_bytes() + r.cfhe_head.le_bytes() =~= bytes@.subrange(pos as int, pos + 0x2400));
            assert(seq_bytes(r.cfog@, false) + r.magic.le_bytes() + seq_bytes(r.owned@, false) + seq_bytes(r.cfhe@, false) + r.cfhe_tail.le_bytes() + r.cfhe_head.le_bytes() + seq_bytes(r.cfhe_objects@, false) =~= bytes@.subrange(pos as int, pos + 0xc810));
            assert(seq_bytes(r.cfog@, false) + r.magic.le_bytes() + seq_bytes(r.owned@, false) + seq_bytes(r.cfhe@, false) + r.cfhe_tail.le_bytes() + r.cfhe_head.le_bytes() + seq_bytes(r.cfhe_objects@, false) + seq_bytes(r.unk@, false) =~= bytes@.subrange(pos as int, pos + 0xc81e));
            assert(seq_bytes(r.cfog@, false) + r.magic.le_bytes() + seq_bytes(r.owned@, false) + seq_bytes(r.cfhe@, false) + r.cfhe_tail.le_bytes() + r.cfhe_head.le_bytes() + seq_bytes(r.cfhe_objects@, false) + seq_bytes(r.unk@, false) + r.crc_a.le_bytes() =~= bytes@.subrange(pos as int, pos + 0xc820));
            assert(seq_bytes(r.cfog@, false) + r.magic.le_bytes() + seq_bytes(r.owned@, false) + seq_bytes(r.cfhe@, false) + r.cfhe_tail.le_bytes() + r.cfhe_head.le_bytes() + seq_bytes(r.cfhe_objects@, false) + seq_bytes(r.unk@, false) + r.crc_a.le_bytes() + r.cfra.le_bytes() =~= bytes@.subrange(pos as int, pos + 0xc824));
            assert(seq_bytes(r.cfog@, false) + r.magic.le_bytes() + seq_bytes(r.owned@, false) + seq_bytes(r.cfhe@, false) + r.cfhe_tail.le_bytes() + r.cfhe_head.le_bytes() + seq_bytes(r.cfhe_objects@, false) + seq_bytes(r.unk@, false) + r.crc_a.le_bytes() + r.cfra.le_bytes() + r.invited_count.le_bytes() =~= bytes@.subrange(pos as int, pos + 0xc828));
            assert(seq_bytes(r.cfog@, false) + r.magic.le_bytes() + seq_bytes(r.owned@, false) + seq_bytes(r.cfhe@, false) + r.cfhe_tail.le_bytes() + r.cfhe_head.le_bytes() + seq_bytes(r.cfhe_objects@, false) + seq_bytes(r.unk@, false) + r.crc_a.le_bytes() + r.cfra.le_bytes() + r.invited_count.le_bytes() + seq_bytes(r.invited_order@, false) =~= bytes@.subrange(pos as int, pos + 0xc88c));
            assert(seq_bytes(r.cfog@, false) + r.magic.le_bytes() + seq_bytes(r.owned@, false) + seq_bytes(r.cfhe@, false) + r.cfhe_tail.le_bytes() + r.cfhe_head.le_bytes() + seq_bytes(r.cfhe_objects@, false) + seq_bytes(r.unk@, false) + r.crc_a.le_bytes() + r.cfra.le_bytes() + r.invited_count.le_bytes() + seq_bytes(r.invited_order@, false) + seq_bytes(r.invited@, false) =~= bytes@.subrange(pos as int, pos + 0xe4ac));
            assert(seq_bytes(r.cfog@, false) + r.magic.le_bytes() + seq_bytes(r.owned@, false) + seq_bytes(r.cfhe@, false) + r.cfhe_tail.le_bytes() + r.cfhe_head.le_bytes() + seq_bytes(r.cfhe_objects@, false) + seq_bytes(r.unk@, false) + r.crc_a.le_bytes() + r.cfra.le_bytes() + r.invited_count.le_bytes() + seq_bytes(r.invited_order@, false) + seq_bytes(r.invited@, false) + seq_bytes(r.unk2@, false) =~= bytes@.subrange(pos as int, pos + 0xe4be));
            assert(seq_bytes(r.cfog@, false) + r.magic.le_bytes() + seq_bytes(r.owned@, false) + seq_bytes(r.cfhe@, false) + r.cfhe_tail.le_bytes() + r.cfhe_head.le_bytes() + seq_bytes(r.cfhe_objects@, false) + seq_bytes(r.unk@, false) + r.crc_a.le_bytes() + r.cfra.le_bytes() + r.invited_count.le_bytes() + seq_bytes(r.invited_order@, false) + seq_bytes(r.invited@, false) + seq_bytes(r.unk2@, false) + r.crc_b.le_bytes() =~= bytes@.subrange(pos as int, pos + 0xe4c0));
            assert(seq_bytes(r.cfog@, false) + r.magic.le_bytes() + seq_bytes(r.owned@, false) + seq_bytes(r.cfhe@, false) + r.cfhe_tail.le_bytes() + r.cfhe_head.le_bytes() + seq_bytes(r.cfhe_objects@, false) + seq_bytes(r.unk@, false) + r.crc_a.le_bytes() + r.cfra.le_bytes() + r.invited_count.le_bytes() + seq_bytes(r.invited_order@, false) + seq_bytes(r.invited@, false) + seq_bytes(r.unk2@, false) + r.crc_b.le_bytes() + seq_bytes(r.cfhe_profiles@, false) =~= bytes@.subrange(pos as int, pos + 0x4bd20));
        }
        r
    }

    exec fn write_be_bytes(&self, bytes: &mut [u8], pos: usize) {
        self.write_le_bytes(bytes, pos);
    }

    exec fn read_be_bytes(bytes: &[u8], pos: usize) -> (r: Self) {
        Self::read_le_bytes(bytes, pos)
    }
}

impl ByteStruct for Database {
}


/// The slot a profile claims on the ten-by-ten selection grid.
pub open spec fn spec_slot_of(p: Profile) -> int {
    p.header.page * 10 + p.header.slot
}

impl Profile {
    /// A profile is null when its whole identity record is zero.
    pub open spec fn spec_is_null(self) -> bool {
        self.id.low.creation_date == 0 && self.id.low.unknown == 0 && self.id.low.temporary == 0
            && self.id.low.ntr == 0 && self.id.low.normal == 0 && (forall|i: int|
            0 <= i < 6 ==> self.id.mac@[i] == 0)
    }

    /// The grid slot this profile occupies.
    pub exec fn get_slot(&self) -> (r: usize)
        requires
            self.header.page < 10,
            self.header.slot < 10,
        ensures
            r == spec_slot_of(*self),
    {
        (self.header.page * 10 + self.header.slot) as usize
    }

    /// Moves the profile to another grid slot, leaving every other field alone.
    pub exec fn set_slot(&mut self, slot: usize)
        requires
            slot < 100,
        ensures
            final(self).header == (ProfileHeader {
                page: (slot / 10) as u32,
                slot: (slot % 10) as u32,
                ..old(self).header
            }),
            spec_slot_of(*final(self)) == slot,
            final(self).system_id == old(self).system_id,
            final(self).id == old(self).id,
            final(self).padding == old(self).padding,
            final(self).general == old(self).general,
            final(self).name == old(self).name,
            final(self).height == old(self).height,
            final(self).width == old(self).width,
            final(self).face == old(self).face,
            final(self).hair == old(self).hair,
            final(self).eye == old(self).eye,
            final(self).eyebrow == old(self).eyebrow,
            final(self).nose == old(self).nose,
            final(self).lip == old(self).lip,
            final(self).misc == old(self).misc,
            final(self).beard == old(self).beard,
            final(self).glass == old(self).glass,
            final(self).mole == old(self).mole,
    {
        self.header.page = (slot / 10) as u32;
        self.header.slot = (slot % 10) as u32;
    }

    /// Whether the identity record is all-zero.
    pub exec fn is_null(&self) -> (r: bool)
        ensures
            r == self.spec_is_null(),
    {
        let r = self.id.low.creation_date == 0 && self.id.low.unknown == 0
            && self.id.low.temporary == 0 && self.id.low.ntr == 0 && self.id.low.normal == 0
            && self.id.mac[0] == 0 && self.id.mac[1] == 0 && self.id.mac[2] == 0
            && self.id.mac[3] == 0 && self.id.mac[4] == 0 && self.id.mac[5] == 0;
        proof {
            if r {
                assert forall|i: int| 0 <= i < 6 implies self.id.mac@[i] == 0 by {
                    assert(self.id.mac@[0] == 0 && self.id.mac@[1] == 0 && self.id.mac@[2] == 0
                        && self.id.mac@[3] == 0 && self.id.mac@[4] == 0 && self.id.mac@[5] == 0);
                }
            }
        }
        r
    }

    /// A fresh profile with the standard initial face, carrying the machine
    /// identity it was created on and the creation timestamp, placed at `slot`.
    ///
    /// `creation_date` counts two-second steps since the start of 2010 and
    /// must fit the 28-bit field it is stored in.
    pub exec fn new(mac: [u8; 6], system_id: [u8; 8], creation_date: u32, slot: usize) -> (r:
        Profile)
        requires
            creation_date < 0x10000000,
            slot < 100,
        ensures
            r.wf(),
            r.header == (ProfileHeader {
                three: 3,
                allow_copying: 0,
                private_name: 0,
                region_lock: 0,
                char_set: 0,
                padding_a: 0,
                page: (slot / 10) as u32,
                slot: (slot % 10) as u32,
                version_minor: 0,
                version_major: 3,
                padding_b: 0,
            }),
            r.system_id == system_id,
            r.id.low == (ProfileIdLow {
                creation_date,
                unknown: 1,
                temporary: 0,
                ntr: 0,
                normal: 1,
            }),
            r.id.mac == mac,
            r.padding == 0,
            r.general == (ProfileGeneral {
                sex: 1,
                birth_month: 0,
                birth_day: 0,
                favorite_color: 0,
                favorite: 0,
                padding: 0,
            }),
            r.name@ == seq![63u16, 0, 0, 0, 0, 0, 0, 0, 0, 0],
            r.height == 64,
            r.width == 64,
            r.face == (ProfileFace {
                disable_sharing: 0,
                style: 0,
                color: 0,
                wrinkle: 0,
                makeup: 0,
            }),
            r.hair == (ProfileHair { style: 12, color: 1, flip: 0, padding: 0 }),
            r.eye == (ProfileEye {
                style: 4,
                color: 0,
                scale: 4,
                y_scale: 3,
                rotation: 3,
                x: 2,
                y: 12,
                padding: 0,
            }),
            r.eyebrow == (ProfileEyebrow {
                style: 0,
                color: 1,
                scale: 4,
                y_scale: 3,
                padding: 0,
                rotation: 6,
                x: 2,
                y: 10,
                padding2: 0,
            }),
            r.nose == (ProfileNose { style: 1, scale: 4, y: 9, padding: 0 }),
            r.lip == (ProfileLip { style: 23, color: 0, scale: 4, y_scale: 3 }),
            r.misc == (ProfileMisc { lip_y: 13, mustache_style: 0, padding: 0 }),
            r.beard == (ProfileBeard {
                style: 0,
                color: 0,
                mustache_scale: 4,
                mustache_y: 10,
                padding: 0,
            }),
            r.glass == (ProfileGlass { style: 0, color: 0, scale: 4, y: 10 }),
            r.mole == (ProfileMole { style: 0, scale: 4, x: 2, y: 20, padding: 0 }),
    {
        let r = Profile {
            header: ProfileHeader {
                three: 3,
                allow_copying: 0,
                private_name: 0,
                region_lock: 0,
                char_set: 0,
                padding_a: 0,
                page: (slot / 10) as u32,
                slot: (slot % 10) as u32,
                version_minor: 0,
                version_major: 3,
                padding_b: 0,
            },
            system_id,
            id: ProfileId {
                low: ProfileIdLow { creation_date, unknown: 1, temporary: 0, ntr: 0, normal: 1 },
                mac,
            },
            padding: 0,
            general: ProfileGeneral {
                sex: 1,
                birth_month: 0,
                birth_day: 0,
                favorite_color: 0,
                favorite: 0,
                padding: 0,
            },
            name: [63, 0, 0, 0, 0, 0, 0, 0, 0, 0],
            height: 64,
            width: 64,
            face: ProfileFace { disable_sharing: 0, style: 0, color: 0, wrinkle: 0, makeup: 0 },
            hair: ProfileHair { style: 12, color: 1, flip: 0, padding: 0 },
            eye: ProfileEye {
                style: 4,
                color: 0,
                scale: 4,
                y_scale: 3,
                rotation: 3,
                x: 2,
                y: 12,
                padding: 0,
            },
            eyebrow: ProfileEyebrow {
                style: 0,
                color: 1,
                scale: 4,
                y_scale: 3,
                padding: 0,
                rotation: 6,
                x: 2,
                y: 10,
                padding2: 0,
            },
            nose: ProfileNose { style: 1, scale: 4, y: 9, padding: 0 },
            lip: ProfileLip { style: 23, color: 0, scale: 4, y_scale: 3 },
            misc: ProfileMisc { lip_y: 13, mustache_style: 0, padding: 0 },
            beard: ProfileBeard { style: 0, color: 0, mustache_scale: 4, mustache_y: 10, padding: 0 },
            glass: ProfileGlass { style: 0, color: 0, scale: 4, y: 10 },
            mole: ProfileMole { style: 0, scale: 4, x: 2, y: 20, padding: 0 },
        };
        proof {
            assert(r.name@ =~= seq![63u16, 0, 0, 0, 0, 0, 0, 0, 0, 0]);
        }
        r
    }
}

/// Whether owned entry `i` of `db` is a live profile sitting at grid `slot`.
pub open spec fn spec_owned_at_slot(db: Database, slot: int, i: int) -> bool {
    !db.owned@[i].main.spec_is_null() && spec_slot_of(db.owned@[i].main) == slot
}

impl Database {
    /// Every live owned profile claims a slot on the ten-by-ten grid.
    pub open spec fn spec_slots_in_range(self) -> bool {
        forall|i: int|
            0 <= i < 100 && !self.owned@[i].main.spec_is_null()
                ==> #[trigger] self.owned@[i].main.header.page < 10
                && self.owned@[i].main.header.slot < 10
    }

    /// The first owned entry occupying grid `slot`, if one does.
    pub exec fn owned_slot_to_index(&self, slot: usize) -> (r: Option<usize>)
        requires
            self.spec_slots_in_range(),
        ensures
            match r {
                Some(i) => i < 100 && spec_owned_at_slot(*self, slot as int, i as int) && (forall|
                    j: int,
                |
                    0 <= j < i ==> !spec_owned_at_slot(*self, slot as int, j)),
                None => forall|j: int| 0 <= j < 100 ==> !spec_owned_at_slot(*self, slot as int, j),
            },
    {
        let mut i: usize = 0;
        while i < 100
            invariant
                i <= 100,
                self.spec_slots_in_range(),
                forall|j: int| 0 <= j < i ==> !spec_owned_at_slot(*self, slot as int, j),
            decreases 100 - i,
        {
            let profile = &self.owned[i].main;
            if !profile.is_null() && profile.get_slot() == slot {
                return Some(i);
            }
            i = i + 1;
        }
        None
    }

    /// The saved image of the database: its encoding with the two checksums
    /// recomputed over their fixed ranges and stored big-endian in their slots.
    pub open spec fn spec_saved_bytes(db: Database) -> Seq<u8> {
        let base = db.le_bytes();
        let patched_a = spliced(base, 0xC81E, spec_crc16(base.subrange(0, 0xC81E)).be_bytes());
        spliced(patched_a, 0xE4BE, spec_crc16(patched_a.subrange(0xC820, 0xE4BE)).be_bytes())
    }

    /// Re-encodes the whole database into `bytes` and stamps both checksums.
    pub exec fn write_saved(&self, bytes: &mut [u8])
        requires
            self.wf(),
            old(bytes)@.len() == 0x4BD20,
        ensures
            final(bytes)@ == Database::spec_saved_bytes(*self),
    {
        proof {
            self.lemma_len();
        }
        self.write_bytes(bytes, 0);
        proof {
            assert(bytes@ =~= self.le_bytes());
        }
        let crc_a = crc16_ninty(slice_subrange(bytes, 0, 0xC81E));
        crc_a.write_be_bytes(bytes, 0xC81E);
        let crc_b = crc16_ninty(slice_subrange(bytes, 0xC820, 0xE4BE));
        crc_b.write_be_bytes(bytes, 0xE4BE);
    }

    /// Whether both stored checksums of a database image match the ranges
    /// they protect.  Loading must refuse the image when this is false.
    pub exec fn verify_checksums(data: &[u8]) -> (r: bool)
        requires
            data@.len() == 0x4BD20,
        ensures
            r == (spec_crc16(data@.subrange(0, 0xC81E)).be_bytes() == data@.subrange(
                0xC81E,
                0xC820,
            ) && spec_crc16(data@.subrange(0xC820, 0xE4BE)).be_bytes() == data@.subrange(
                0xE4BE,
                0xE4C0,
            )),
    {
        let crc_a = crc16_ninty(slice_subrange(data, 0, 0xC81E));
        let stored_a = u16::read_be_bytes(data, 0xC81E);
        let crc_b = crc16_ninty(slice_subrange(data, 0xC820, 0xE4BE));
        let stored_b = u16::read_be_bytes(data, 0xE4BE);
        proof {
            u16::lemma_injective(crc_a, stored_a);
            u16::lemma_injective(crc_b, stored_b);
        }
        crc_a == stored_a && crc_b == stored_b
    }
}


/// The valid day range of a birth month: month zero (unset) admits only
/// day zero, and each real month admits its calendar days, with day 29
/// always allowed in February.
pub open spec fn spec_birth_day_range(month: u16) -> (u16, u16) {
    if month == 0 {
        (0, 0)
    } else if month == 2 {
        (1, 29)
    } else if month == 4 || month == 6 || month == 9 || month == 11 {
        (1, 30)
    } else {
        (1, 31)
    }
}

/// Clamps a birth day into the valid range of the chosen month.
pub fn clamp_birthday(month: u16, day: &mut u16)
    requires
        month <= 12,
    ensures
        *final(day) == (if *old(day) < spec_birth_day_range(month).0 {
            spec_birth_day_range(month).0
        } else if *old(day) > spec_birth_day_range(month).1 {
            spec_birth_day_range(month).1
        } else {
            *old(day)
        }),
{
    let lo: u16 = if month == 0 {
        0
    } else {
        1
    };
    let hi: u16 = if month == 0 {
        0
    } else if month == 2 {
        29
    } else if month == 4 || month == 6 || month == 9 || month == 11 {
        30
    } else {
        31
    };
    if *day < lo {
        *day = lo;
    } else if *day > hi {
        *day = hi;
    }
}

/// Moves a birth month off a value its chosen day cannot belong to: an
/// unset day unsets the month, a set day forces a real month, day thirty
/// leaves February, and day thirty-one steps back from a short month.
pub fn adjust_birthmonth(day: u16, month: &mut u16)
    ensures
        *final(month) == (if day == 0 {
            0u16
        } else if *old(month) == 0 {
            1u16
        } else if day == 30 && *old(month) == 2 {
            1u16
        } else if day == 31 && (*old(month) == 2 || *old(month) == 4 || *old(month) == 6 || *old(
            month,
        ) == 9 || *old(month) == 12) {
            (*old(month) - 1) as u16
        } else {
            *old(month)
        }),
{
    if day == 0 {
        *month = 0;
    } else if *month == 0 {
        *month = 1;
    } else if day == 30 && *month == 2 {
        *month = 1;
    } else if day == 31 {
        if *month == 2 || *month == 4 || *month == 6 || *month == 9 || *month == 12 {
            *month = *month - 1;
        }
    }
}

} // verus!
