//! The ROM-filesystem directory lookup used to pull the embedded resource
//! file out of a container image: fixed-layout header, directory and file
//! records, and a walk of the name-keyed chains.  File and directory names
//! are stored as UTF-16LE bytes.

use crate::codec::{lemma_spliced_append, read_le32, spec_le32, spliced, ByteStruct, ByteStructImpl};
use vstd::prelude::*;
use vstd::slice::slice_subrange;

verus! {

/// The filesystem header: table offsets and lengths.
#[derive(Clone, Copy, Debug, PartialEq)]
pub struct Header {
    pub header_length: u32,
    pub dir_hash_table_offset: u32,
    pub dir_hash_table_length: u32,
    pub dir_table_offset: u32,
    pub dir_table_length: u32,
    pub file_hash_table_offset: u32,
    pub file_hash_table_length: u32,
    pub file_table_offset: u32,
    pub file_table_length: u32,
    pub data_offset: u32,
}

impl ByteStructImpl for Header {
    open spec fn spec_byte_len() -> nat {
        0x28
    }

    open spec fn wf(&self) -> bool {
        self.header_length.wf() && self.dir_hash_table_offset.wf() && self.dir_hash_table_length.wf() && self.dir_table_offset.wf() && self.dir_table_length.wf() && self.file_hash_table_offset.wf() && self.file_hash_table_length.wf() && self.file_table_offset.wf() && self.file_table_length.wf() && self.data_offset.wf()
    }

    open spec fn le_bytes(&self) -> Seq<u8> {
        self.header_length.le_bytes() + self.dir_hash_table_offset.le_bytes() + self.dir_hash_table_length.le_bytes() + self.dir_table_offset.le_bytes() + self.dir_table_length.le_bytes() + self.file_hash_table_offset.le_bytes() + self.file_hash_table_length.le_bytes() + self.file_table_offset.le_bytes() + self.file_table_length.le_bytes() + self.data_offset.le_bytes()
    }

    open spec fn be_bytes(&self) -> Seq<u8> {
        self.le_bytes()
    }

    proof fn lemma_len(&self) {
        self.header_length.lemma_len();
        self.dir_hash_table_offset.lemma_len();
        self.dir_hash_table_length.lemma_len();
        self.dir_table_offset.lemma_len();
        self.dir_table_length.lemma_len();
        self.file_hash_table_offset.lemma_len();
        self.file_hash_table_length.lemma_len();
        self.file_table_offset.lemma_len();
        self.file_table_length.lemma_len();
        self.data_offset.lemma_len();
    }

    #[verifier::spinoff_prover]
    #[verifier::rlimit(100)]
    proof fn lemma_injective(a: Self, b: Self) {
        a.header_length.lemma_len();
        a.dir_hash_table_offset.lemma_len();
        a.dir_hash_table_length.lemma_len();
        a.dir_table_offset.lemma_len();
        a.dir_table_length.lemma_len();
        a.file_hash_table_offset.lemma_len();
        a.file_hash_table_length.lemma_len();
        a.file_table_offset.lemma_len();
        a.file_table_length.lemma_len();
        a.data_offset.lemma_len();
        b.header_length.lemma_len();
        b.dir_hash_table_offset.lemma_len();
        b.dir_hash_table_length.lemma_len();
        b.dir_table_offset.lemma_len();
        b.dir_table_length.lemma_len();
        b.file_hash_table_offset.lemma_len();
        b.file_hash_table_length.lemma_len();
        b.file_table_offset.lemma_len();
        b.file_table_length.lemma_len();
        b.data_offset.lemma_len();
        if a.le_bytes() == b.le_bytes() {
            let sa = a.le_bytes();
            let sb = b.le_bytes();
            assert(a.data_offset.le_bytes() =~= sa.subrange(0x24, 0x28));
            assert(b.data_offset.le_bytes() =~= sb.subrange(0x24, 0x28));
            assert(a.header_length.le_bytes() + a.dir_hash_table_offset.le_bytes() + a.dir_hash_table_length.le_bytes() + a.dir_table_offset.le_bytes() + a.dir_table_length.le_bytes() + a.file_hash_table_offset.le_bytes() + a.file_hash_table_length.le_bytes() + a.file_table_offset.le_bytes() + a.file_table_length.le_bytes() =~= sa.subrange(0, 0x24));
            assert(b.header_length.le_bytes() + b.dir_hash_table_offset.le_bytes() + b.dir_hash_table_length.le_bytes() + b.dir_table_offset.le_bytes() + b.dir_table_length.le_bytes() + b.file_hash_table_offset.le_bytes() + b.file_hash_table_length.le_bytes() + b.file_table_offset.le_bytes() + b.file_table_length.le_bytes() =~= sb.subrange(0, 0x24));
            assert(a.file_table_length.le_bytes() =~= sa.subrange(0x20, 0x24));
            assert(b.file_table_length.le_bytes() =~= sb.subrange(0x20, 0x24));
            assert(a.header_length.le_bytes() + a.dir_hash_table_offset.le_bytes() + a.dir_hash_table_length.le_bytes() + a.dir_table_offset.le_bytes() + a.dir_table_length.le_bytes() + a.file_hash_table_offset.le_bytes() + a.file_hash_table_length.le_bytes() + a.file_table_offset.le_bytes() =~= sa.subrange(0, 0x20));
            assert(b.header_length.le_bytes() + b.dir_hash_table_offset.le_bytes() + b.dir_hash_table_length.le_bytes() + b.dir_table_offset.le_bytes() + b.dir_table_length.le_bytes() + b.file_hash_table_offset.le_bytes() + b.file_hash_table_length.le_bytes() + b.file_table_offset.le_bytes() =~= sb.subrange(0, 0x20));
            assert(a.file_table_offset.le_bytes() =~= sa.subrange(0x1c, 0x20));
            assert(b.file_table_offset.le_bytes() =~= sb.subrange(0x1c, 0x20));
            assert(a.header_length.le_bytes() + a.dir_hash_table_offset.le_bytes() + a.dir_hash_table_length.le_bytes() + a.dir_table_offset.le_bytes() + a.dir_table_length.le_bytes() + a.file_hash_table_offset.le_bytes() + a.file_hash_table_length.le_bytes() =~= sa.subrange(0, 0x1c));
            assert(b.header_length.le_bytes() + b.dir_hash_table_offset.le_bytes() + b.dir_hash_table_length.le_bytes() + b.dir_table_offset.le_bytes() + b.dir_table_length.le_bytes() + b.file_hash_table_offset.le_bytes() + b.file_hash_table_length.le_bytes() =~= sb.subrange(0, 0x1c));
            assert(a.file_hash_table_length.le_bytes() =~= sa.subrange(0x18, 0x1c));
            assert(b.file_hash_table_length.le_bytes() =~= sb.subrange(0x18, 0x1c));
            assert(a.header_length.le_bytes() + a.dir_hash_table_offset.le_bytes() + a.dir_hash_table_length.le_bytes() + a.dir_table_offset.le_bytes() + a.dir_table_length.le_bytes() + a.file_hash_table_offset.le_bytes() =~= sa.subrange(0, 0x18));
            assert(b.header_length.le_bytes() + b.dir_hash_table_offset.le_bytes() + b.dir_hash_table_length.le_bytes() + b.dir_table_offset.le_bytes() + b.dir_table_length.le_bytes() + b.file_hash_table_offset.le_bytes() =~= sb.subrange(0, 0x18));
            assert(a.file_hash_table_offset.le_bytes() =~= sa.subrange(0x14, 0x18));
            assert(b.file_hash_table_offset.le_bytes() =~= sb.subrange(0x14, 0x18));
            assert(a.header_length.le_bytes() + a.dir_hash_table_offset.le_bytes() + a.dir_hash_table_length.le_bytes() + a.dir_table_offset.le_bytes() + a.dir_table_length.le_bytes() =~= sa.subrange(0, 0x14));
            assert(b.header_length.le_bytes() + b.dir_hash_table_offset.le_bytes() + b.dir_hash_table_length.le_bytes() + b.dir_table_offset.le_bytes() + b.dir_table_length.le_bytes() =~= sb.subrange(0, 0x14));
            assert(a.dir_table_length.le_bytes() =~= sa.subrange(0x10, 0x14));
            assert(b.dir_table_length.le_bytes() =~= sb.subrange(0x10, 0x14));
            assert(a.header_length.le_bytes() + a.dir_hash_table_offset.le_bytes() + a.dir_hash_table_length.le_bytes() + a.dir_table_offset.le_bytes() =~= sa.subrange(0, 0x10));
            assert(b.header_length.le_bytes() + b.dir_hash_table_offset.le_bytes() + b.dir_hash_table_length.le_bytes() + b.dir_table_offset.le_bytes() =~= sb.subrange(0, 0x10));
            assert(a.dir_table_offset.le_bytes() =~= sa.subrange(0xc, 0x10));
            assert(b.dir_table_offset.le_bytes() =~= sb.subrange(0xc, 0x10));
            assert(a.header_length.le_bytes() + a.dir_hash_table_offset.le_bytes() + a.dir_hash_table_length.le_bytes() =~= sa.subrange(0, 0xc));
            assert(b.header_length.le_bytes() + b.dir_hash_table_offset.le_bytes() + b.dir_hash_table_length.le_bytes() =~= sb.subrange(0, 0xc));
            assert(a.dir_hash_table_length.le_bytes() =~= sa.subrange(8, 0xc));
            assert(b.dir_hash_table_length.le_bytes() =~= sb.subrange(8, 0xc));
            assert(a.header_length.le_bytes() + a.dir_hash_table_offset.le_bytes() =~= sa.subrange(0, 8));
            assert(b.header_length.le_bytes() + b.dir_hash_table_offset.le_bytes() =~= sb.subrange(0, 8));
            assert(a.dir_hash_table_offset.le_bytes() =~= sa.subrange(4, 8));
            assert(b.dir_hash_table_offset.le_bytes() =~= sb.subrange(4, 8));
            assert(a.header_length.le_bytes() =~= sa.subrange(0, 4));
            assert(b.header_length.le_bytes() =~= sb.subrange(0, 4));
            assert(a.header_length.le_bytes() =~= sa.subrange(0, 4));
            assert(b.header_length.le_bytes() =~= sb.subrange(0, 4));
            u32::lemma_injective(a.header_length, b.header_length);
            u32::lemma_injective(a.dir_hash_table_offset, b.dir_hash_table_offset);
            u32::lemma_injective(a.dir_hash_table_length, b.dir_hash_table_length);
            u32::lemma_injective(a.dir_table_offset, b.dir_table_offset);
            u32::lemma_injective(a.dir_table_length, b.dir_table_length);
            u32::lemma_injective(a.file_hash_table_offset, b.file_hash_table_offset);
            u32::lemma_injective(a.file_hash_table_length, b.file_hash_table_length);
            u32::lemma_injective(a.file_table_offset, b.file_table_offset);
            u32::lemma_injective(a.file_table_length, b.file_table_length);
            u32::lemma_injective(a.data_offset, b.data_offset);
            assert(a == b);
        }
    }

    exec fn byte_len() -> (n: usize) {
        0x28
    }

    #[verifier::spinoff_prover]
    #[verifier::rlimit(100)]
    exec fn write_le_bytes(&self, bytes: &mut [u8], pos: usize) {
        let buf_len = bytes.len();
        proof {
            assert(buf_len == bytes@.len());
            self.header_length.lemma_len();
            self.dir_hash_table_offset.lemma_len();
            self.dir_hash_table_length.lemma_len();
            self.dir_table_offset.lemma_len();
            self.dir_table_length.lemma_len();
            self.file_hash_table_offset.lemma_len();
            self.file_hash_table_length.lemma_len();
            self.file_table_offset.lemma_len();
            self.file_table_length.lemma_len();
            self.data_offset.lemma_len();
        }
        self.header_length.write_le_bytes(bytes, pos);
        self.dir_hash_table_offset.write_le_bytes(bytes, pos + 4);
        proof {
            lemma_spliced_append(old(bytes)@, pos as int, self.header_length.le_bytes(), self.dir_hash_table_offset.le_bytes());
        }
        self.dir_hash_table_length.write_le_bytes(bytes, pos + 8);
        proof {
            lemma_spliced_append(old(bytes)@, pos as int, self.header_length.le_bytes() + self.dir_hash_table_offset.le_bytes(), self.dir_hash_table_length.le_bytes());
        }
        self.dir_table_offset.write_le_bytes(bytes, pos + 0xc);
        proof {
            lemma_spliced_append(old(bytes)@, pos as int, self.header_length.le_bytes() + self.dir_hash_table_offset.le_bytes() + self.dir_hash_table_length.le_bytes(), self.dir_table_offset.le_bytes());
        }
        self.dir_table_length.write_le_bytes(bytes, pos + 0x10);
        proof {
            lemma_spliced_append(old(bytes)@, pos as int, self.header_length.le_bytes() + self.dir_hash_table_offset.le_bytes() + self.dir_hash_table_length.le_bytes() + self.dir_table_offset.le_bytes(), self.dir_table_length.le_bytes());
        }
        self.file_hash_table_offset.write_le_bytes(bytes, pos + 0x14);
        proof {
            lemma_spliced_append(old(bytes)@, pos as int, self.header_length.le_bytes() + self.dir_hash_table_offset.le_bytes() + self.dir_hash_table_length.le_bytes() + self.dir_table_offset.le_bytes() + self.dir_table_length.le_bytes(), self.file_hash_table_offset.le_bytes());
        }
        self.file_hash_table_length.write_le_bytes(bytes, pos + 0x18);
        proof {
            lemma_spliced_append(old(bytes)@, pos as int, self.header_length.le_bytes() + self.dir_hash_table_offset.le_bytes() + self.dir_hash_table_length.le_bytes() + self.dir_table_offset.le_bytes() + self.dir_table_length.le_bytes() + self.file_hash_table_offset.le_bytes(), self.file_hash_table_length.le_bytes());
        }
        self.file_table_offset.write_le_bytes(bytes, pos + 0x1c);
        proof {
            lemma_spliced_append(old(bytes)@, pos as int, self.header_length.le_bytes() + self.dir_hash_table_offset.le_bytes() + self.dir_hash_table_length.le_bytes() + self.dir_table_offset.le_bytes() + self.dir_table_length.le_bytes() + self.file_hash_table_offset.le_bytes() + self.file_hash_table_length.le_bytes(), self.file_table_offset.le_bytes());
        }
        self.file_table_length.write_le_bytes(bytes, pos + 0x20);
        proof {
            lemma_spliced_append(old(bytes)@, pos as int, self.header_length.le_bytes() + self.dir_hash_table_offset.le_bytes() + self.dir_hash_table_length.le_bytes() + self.dir_table_offset.le_bytes() + self.dir_table_length.le_bytes() + self.file_hash_table_offset.le_bytes() + self.file_hash_table_length.le_bytes() + self.file_table_offset.le_bytes(), self.file_table_length.le_bytes());
        }
        self.data_offset.write_le_bytes(bytes, pos + 0x24);
        proof {
            lemma_spliced_append(old(bytes)@, pos as int, self.header_length.le_bytes() + self.dir_hash_table_offset.le_bytes() + self.dir_hash_table_length.le_bytes() + self.dir_table_offset.le_bytes() + self.dir_table_length.le_bytes() + self.file_hash_table_offset.le_bytes() + self.file_hash_table_length.le_bytes() + self.file_table_offset.le_bytes() + self.file_table_length.le_bytes(), self.data_offset.le_bytes());
        }
    }

    #[verifier::spinoff_prover]
    #[verifier::rlimit(100)]
    exec fn read_le_bytes(bytes: &[u8], pos: usize) -> (r: Self) {
        let buf_len = bytes.len();
        proof {
            assert(buf_len == bytes@.len());
        }
        let header_length = u32::read_le_bytes(bytes, pos);
        let dir_hash_table_offset = u32::read_le_bytes(bytes, pos + 4);
        let dir_hash_table_length = u32::read_le_bytes(bytes, pos + 8);
        let dir_table_offset = u32::read_le_bytes(bytes, pos + 0xc);
        let dir_table_length = u32::read_le_bytes(bytes, pos + 0x10);
        let file_hash_table_offset = u32::read_le_bytes(bytes, pos + 0x14);
        let file_hash_table_length = u32::read_le_bytes(bytes, pos + 0x18);
        let file_table_offset = u32::read_le_bytes(bytes, pos + 0x1c);
        let file_table_length = u32::read_le_bytes(bytes, pos + 0x20);
        let data_offset = u32::read_le_bytes(bytes, pos + 0x24);
        let r = Header { header_length, dir_hash_table_offset, dir_hash_table_length, dir_table_offset, dir_table_length, file_hash_table_offset, file_hash_table_length, file_table_offset, file_table_length, data_offset };
        proof {
            assert(r.header_length.le_bytes() + r.dir_hash_table_offset.le_bytes() =~= bytes@.subrange(pos as int, pos + 8));
            assert(r.header_length.le_bytes() + r.dir_hash_table_offset.le_bytes() + r.dir_hash_table_length.le_bytes() =~= bytes@.subrange(pos as int, pos + 0xc));
            assert(r.header_length.le_bytes() + r.dir_hash_table_offset.le_bytes() + r.dir_hash_table_length.le_bytes() + r.dir_table_offset.le_bytes() =~= bytes@.subrange(pos as int, pos + 0x10));
            assert(r.header_length.le_bytes() + r.dir_hash_table_offset.le_bytes() + r.dir_hash_table_length.le_bytes() + r.dir_table_offset.le_bytes() + r.dir_table_length.le_bytes() =~= bytes@.subrange(pos as int, pos + 0x14));
            assert(r.header_length.le_bytes() + r.dir_hash_table_offset.le_bytes() + r.dir_hash_table_length.le_bytes() + r.dir_table_offset.le_bytes() + r.dir_table_length.le_bytes() + r.file_hash_table_offset.le_bytes() =~= bytes@.subrange(pos as int, pos + 0x18));
            assert(r.header_length.le_bytes() + r.dir_hash_table_offset.le_bytes() + r.dir_hash_table_length.le_bytes() + r.dir_table_offset.le_bytes() + r.dir_table_length.le_bytes() + r.file_hash_table_offset.le_bytes() + r.file_hash_table_length.le_bytes() =~= bytes@.subrange(pos as int, pos + 0x1c));
            assert(r.header_length.le_bytes() + r.dir_hash_table_offset.le_bytes() + r.dir_hash_table_length.le_bytes() + r.dir_table_offset.le_bytes() + r.dir_table_length.le_bytes() + r.file_hash_table_offset.le_bytes() + r.file_hash_table_length.le_bytes() + r.file_table_offset.le_bytes() =~= bytes@.subrange(pos as int, pos + 0x20));
            assert(r.header_length.le_bytes() + r.dir_hash_table_offset.le_bytes() + r.dir_hash_table_length.le_bytes() + r.dir_table_offset.le_bytes() + r.dir_table_length.le_bytes() + r.file_hash_table_offset.le_bytes() + r.file_hash_table_length.le_bytes() + r.file_table_offset.le_bytes() + r.file_table_length.le_bytes() =~= bytes@.subrange(pos as int, pos + 0x24));
            assert(r.header_length.le_bytes() + r.dir_hash_table_offset.le_bytes() + r.dir_hash_table_length.le_bytes() + r.dir_table_offset.le_bytes() + r.dir_table_length.le_bytes() + r.file_hash_table_offset.le_bytes() + r.file_hash_table_length.le_bytes() + r.file_table_offset.le_bytes() + r.file_table_length.le_bytes() + r.data_offset.le_bytes() =~= bytes@.subrange(pos as int, pos + 0x28));
        }
        r
    }

    exec fn write_be_bytes(&self, bytes: &mut [u8], pos: usize) {
        self.write_le_bytes(bytes, pos);
    }

    exec fn read_be_bytes(bytes: &[u8], pos: usize) -> (r: Self) {
        Self::read_le_bytes(bytes, pos)
    }
}

impl ByteStruct for Header {
}

/// One directory entry; its UTF-16LE name follows the record.
#[derive(Clone, Copy, Debug, PartialEq)]
pub struct DirectoryMetadata {
    pub parent_dir_offset: u32,
    pub next_dir_offset: u32,
    pub first_child_dir_offset: u32,
    pub first_file_offset: u32,
    pub same_hash_next_dir_offet: u32,
    pub name_length: u32,
}

impl ByteStructImpl for DirectoryMetadata {
    open spec fn spec_byte_len() -> nat {
        0x18
    }

    open spec fn wf(&self) -> bool {
        self.parent_dir_offset.wf() && self.next_dir_offset.wf() && self.first_child_dir_offset.wf() && self.first_file_offset.wf() && self.same_hash_next_dir_offet.wf() && self.name_length.wf()
    }

    open spec fn le_bytes(&self) -> Seq<u8> {
        self.parent_dir_offset.le_bytes() + self.next_dir_offset.le_bytes() + self.first_child_dir_offset.le_bytes() + self.first_file_offset.le_bytes() + self.same_hash_next_dir_offet.le_bytes() + self.name_length.le_bytes()
    }

    open spec fn be_bytes(&self) -> Seq<u8> {
        self.le_bytes()
    }

    proof fn lemma_len(&self) {
        self.parent_dir_offset.lemma_len();
        self.next_dir_offset.lemma_len();
        self.first_child_dir_offset.lemma_len();
        self.first_file_offset.lemma_len();
        self.same_hash_next_dir_offet.lemma_len();
        self.name_length.lemma_len();
    }

    proof fn lemma_injective(a: Self, b: Self) {
        a.parent_dir_offset.lemma_len();
        a.next_dir_offset.lemma_len();
        a.first_child_dir_offset.lemma_len();
        a.first_file_offset.lemma_len();
        a.same_hash_next_dir_offet.lemma_len();
        a.name_length.lemma_len();
        b.parent_dir_offset.lemma_len();
        b.next_dir_offset.lemma_len();
        b.first_child_dir_offset.lemma_len();
        b.first_file_offset.lemma_len();
        b.same_hash_next_dir_offet.lemma_len();
        b.name_length.lemma_len();
        if a.le_bytes() == b.le_bytes() {
            let sa = a.le_bytes();
            let sb = b.le_bytes();
            assert(a.name_length.le_bytes() =~= sa.subrange(0x14, 0x18));
            assert(b.name_length.le_bytes() =~= sb.subrange(0x14, 0x18));
            assert(a.parent_dir_offset.le_bytes() + a.next_dir_offset.le_bytes() + a.first_child_dir_offset.le_bytes() + a.first_file_offset.le_bytes() + a.same_hash_next_dir_offet.le_bytes() =~= sa.subrange(0, 0x14));
            assert(b.parent_dir_offset.le_bytes() + b.next_dir_offset.le_bytes() + b.first_child_dir_offset.le_bytes() + b.first_file_offset.le_bytes() + b.same_hash_next_dir_offet.le_bytes() =~= sb.subrange(0, 0x14));
            assert(a.same_hash_next_dir_offet.le_bytes() =~= sa.subrange(0x10, 0x14));
            assert(b.same_hash_next_dir_offet.le_bytes() =~= sb.subrange(0x10, 0x14));
            assert(a.parent_dir_offset.le_bytes() + a.next_dir_offset.le_bytes() + a.first_child_dir_offset.le_bytes() + a.first_file_offset.le_bytes() =~= sa.subrange(0, 0x10));
            assert(b.parent_dir_offset.le_bytes() + b.next_dir_offset.le_bytes() + b.first_child_dir_offset.le_bytes() + b.first_file_offset.le_bytes() =~= sb.subrange(0, 0x10));
            assert(a.first_file_offset.le_bytes() =~= sa.subrange(0xc, 0x10));
            assert(b.first_file_offset.le_bytes() =~= sb.subrange(0xc, 0x10));
            assert(a.parent_dir_offset.le_bytes() + a.next_dir_offset.le_bytes() + a.first_child_dir_offset.le_bytes() =~= sa.subrange(0, 0xc));
            assert(b.parent_dir_offset.le_bytes() + b.next_dir_offset.le_bytes() + b.first_child_dir_offset.le_bytes() =~= sb.subrange(0, 0xc));
            assert(a.first_child_dir_offset.le_bytes() =~= sa.subrange(8, 0xc));
            assert(b.first_child_dir_offset.le_bytes() =~= sb.subrange(8, 0xc));
            assert(a.parent_dir_offset.le_bytes() + a.next_dir_offset.le_bytes() =~= sa.subrange(0, 8));
            assert(b.parent_dir_offset.le_bytes() + b.next_dir_offset.le_bytes() =~= sb.subrange(0, 8));
            assert(a.next_dir_offset.le_bytes() =~= sa.subrange(4, 8));
            assert(b.next_dir_offset.le_bytes() =~= sb.subrange(4, 8));
            assert(a.parent_dir_offset.le_bytes() =~= sa.subrange(0, 4));
            assert(b.parent_dir_offset.le_bytes() =~= sb.subrange(0, 4));
            assert(a.parent_dir_offset.le_bytes() =~= sa.subrange(0, 4));
            assert(b.parent_dir_offset.le_bytes() =~= sb.subrange(0, 4));
            u32::lemma_injective(a.parent_dir_offset, b.parent_dir_offset);
            u32::lemma_injective(a.next_dir_offset, b.next_dir_offset);
            u32::lemma_injective(a.first_child_dir_offset, b.first_child_dir_offset);
            u32::lemma_injective(a.first_file_offset, b.first_file_offset);
            u32::lemma_injective(a.same_hash_next_dir_offet, b.same_hash_next_dir_offet);
            u32::lemma_injective(a.name_length, b.name_length);
            assert(a == b);
        }
    }

    exec fn byte_len() -> (n: usize) {
        0x18
    }

    exec fn write_le_bytes(&self, bytes: &mut [u8], pos: usize) {
        let buf_len = bytes.len();
        proof {
            assert(buf_len == bytes@.len());
            self.parent_dir_offset.lemma_len();
            self.next_dir_offset.lemma_len();
            self.first_child_dir_offset.lemma_len();
            self.first_file_offset.lemma_len();
            self.same_hash_next_dir_offet.lemma_len();
            self.name_length.lemma_len();
        }
        self.parent_dir_offset.write_le_bytes(bytes, pos);
        self.next_dir_offset.write_le_bytes(bytes, pos + 4);
        proof {
            lemma_spliced_append(old(bytes)@, pos as int, self.parent_dir_offset.le_bytes(), self.next_dir_offset.le_bytes());
        }
        self.first_child_dir_offset.write_le_bytes(bytes, pos + 8);
        proof {
            lemma_spliced_append(old(bytes)@, pos as int, self.parent_dir_offset.le_bytes() + self.next_dir_offset.le_bytes(), self.first_child_dir_offset.le_bytes());
        }
        self.first_file_offset.write_le_bytes(bytes, pos + 0xc);
        proof {
            lemma_spliced_append(old(bytes)@, pos as int, self.parent_dir_offset.le_bytes() + self.next_dir_offset.le_bytes() + self.first_child_dir_offset.le_bytes(), self.first_file_offset.le_bytes());
        }
        self.same_hash_next_dir_offet.write_le_bytes(bytes, pos + 0x10);
        proof {
            lemma_spliced_append(old(bytes)@, pos as int, self.parent_dir_offset.le_bytes() + self.next_dir_offset.le_bytes() + self.first_child_dir_offset.le_bytes() + self.first_file_offset.le_bytes(), self.same_hash_next_dir_offet.le_bytes());
        }
        self.name_length.write_le_bytes(bytes, pos + 0x14);
        proof {
            lemma_spliced_append(old(bytes)@, pos as int, self.parent_dir_offset.le_bytes() + self.next_dir_offset.le_bytes() + self.first_child_dir_offset.le_bytes() + self.first_file_offset.le_bytes() + self.same_hash_next_dir_offet.le_bytes(), self.name_length.le_bytes());
        }
    }

    exec fn read_le_bytes(bytes: &[u8], pos: usize) -> (r: Self) {
        let buf_len = bytes.len();
        proof {
            assert(buf_len == bytes@.len());
        }
        let parent_dir_offset = u32::read_le_bytes(bytes, pos);
        let next_dir_offset = u32::read_le_bytes(bytes, pos + 4);
        let first_child_dir_offset = u32::read_le_bytes(bytes, pos + 8);
        let first_file_offset = u32::read_le_bytes(bytes, pos + 0xc);
        let same_hash_next_dir_offet = u32::read_le_bytes(bytes, pos + 0x10);
        let name_length = u32::read_le_bytes(bytes, pos + 0x14);
        let r = DirectoryMetadata { parent_dir_offset, next_dir_offset, first_child_dir_offset, first_file_offset, same_hash_next_dir_offet, name_length };
        proof {
            assert(r.parent_dir_offset.le_bytes() + r.next_dir_offset.le_bytes() =~= bytes@.subrange(pos as int, pos + 8));
            assert(r.parent_dir_offset.le_bytes() + r.next_dir_offset.le_bytes() + r.first_child_dir_offset.le_bytes() =~= bytes@.subrange(pos as int, pos + 0xc));
            assert(r.parent_dir_offset.le_bytes() + r.next_dir_offset.le_bytes() + r.first_child_dir_offset.le_bytes() + r.first_file_offset.le_bytes() =~= bytes@.subrange(pos as int, pos + 0x10));
            assert(r.parent_dir_offset.le_bytes() + r.next_dir_offset.le_bytes() + r.first_child_dir_offset.le_bytes() + r.first_file_offset.le_bytes() + r.same_hash_next_dir_offet.le_bytes() =~= bytes@.subrange(pos as int, pos + 0x14));
            assert(r.parent_dir_offset.le_bytes() + r.next_dir_offset.le_bytes() + r.first_child_dir_offset.le_bytes() + r.first_file_offset.le_bytes() + r.same_hash_next_dir_offet.le_bytes() + r.name_length.le_bytes() =~= bytes@.subrange(pos as int, pos + 0x18));
        }
        r
    }

    exec fn write_be_bytes(&self, bytes: &mut [u8], pos: usize) {
        self.write_le_bytes(bytes, pos);
    }

    exec fn read_be_bytes(bytes: &[u8], pos: usize) -> (r: Self) {
        Self::read_le_bytes(bytes, pos)
    }
}

impl ByteStruct for DirectoryMetadata {
}

/// One file entry; its UTF-16LE name follows the record.
#[derive(Clone, Copy, Debug, PartialEq)]
pub struct FileMetadata {
    pub parent_dir_offset: u32,
    pub next_file_offset: u32,
    pub data_offset: u64,
    pub data_length: u64,
    pub same_hash_next_file_offset: u32,
    pub name_length: u32,
}

impl ByteStructImpl for FileMetadata {
    open spec fn spec_byte_len() -> nat {
        0x20
    }

    open spec fn wf(&self) -> bool {
        self.parent_dir_offset.wf() && self.next_file_offset.wf() && self.data_offset.wf() && self.data_length.wf() && self.same_hash_next_file_offset.wf() && self.name_length.wf()
    }

    open spec fn le_bytes(&self) -> Seq<u8> {
        self.parent_dir_offset.le_bytes() + self.next_file_offset.le_bytes() + self.data_offset.le_bytes() + self.data_length.le_bytes() + self.same_hash_next_file_offset.le_bytes() + self.name_length.le_bytes()
    }

    open spec fn be_bytes(&self) -> Seq<u8> {
        self.le_bytes()
    }

    proof fn lemma_len(&self) {
        self.parent_dir_offset.lemma_len();
        self.next_file_offset.lemma_len();
        self.data_offset.lemma_len();
        self.data_length.lemma_len();
        self.same_hash_next_file_offset.lemma_len();
        self.name_length.lemma_len();
    }

    proof fn lemma_injective(a: Self, b: Self) {
        a.parent_dir_offset.lemma_len();
        a.next_file_offset.lemma_len();
        a.data_offset.lemma_len();
        a.data_length.lemma_len();
        a.same_hash_next_file_offset.lemma_len();
        a.name_length.lemma_len();
        b.parent_dir_offset.lemma_len();
        b.next_file_offset.lemma_len();
        b.data_offset.lemma_len();
        b.data_length.lemma_len();
        b.same_hash_next_file_offset.lemma_len();
        b.name_length.lemma_len();
        if a.le_bytes() == b.le_bytes() {
            let sa = a.le_bytes();
            let sb = b.le_bytes();
            assert(a.name_length.le_bytes() =~= sa.subrange(0x1c, 0x20));
            assert(b.name_length.le_bytes() =~= sb.subrange(0x1c, 0x20));
            assert(a.parent_dir_offset.le_bytes() + a.next_file_offset.le_bytes() + a.data_offset.le_bytes() + a.data_length.le_bytes() + a.same_hash_next_file_offset.le_bytes() =~= sa.subrange(0, 0x1c));
            assert(b.parent_dir_offset.le_bytes() + b.next_file_offset.le_bytes() + b.data_offset.le_bytes() + b.data_length.le_bytes() + b.same_hash_next_file_offset.le_bytes() =~= sb.subrange(0, 0x1c));
            assert(a.same_hash_next_file_offset.le_bytes() =~= sa.subrange(0x18, 0x1c));
            assert(b.same_hash_next_file_offset.le_bytes() =~= sb.subrange(0x18, 0x1c));
            assert(a.parent_dir_offset.le_bytes() + a.next_file_offset.le_bytes() + a.data_offset.le_bytes() + a.data_length.le_bytes() =~= sa.subrange(0, 0x18));
            assert(b.parent_dir_offset.le_bytes() + b.next_file_offset.le_bytes() + b.data_offset.le_bytes() + b.data_length.le_bytes() =~= sb.subrange(0, 0x18));
            assert(a.data_length.le_bytes() =~= sa.subrange(0x10, 0x18));
            assert(b.data_length.le_bytes() =~= sb.subrange(0x10, 0x18));
            assert(a.parent_dir_offset.le_bytes() + a.next_file_offset.le_bytes() + a.data_offset.le_bytes() =~= sa.subrange(0, 0x10));
            assert(b.parent_dir_offset.le_bytes() + b.next_file_offset.le_bytes() + b.data_offset.le_bytes() =~= sb.subrange(0, 0x10));
            assert(a.data_offset.le_bytes() =~= sa.subrange(8, 0x10));
            assert(b.data_offset.le_bytes() =~= sb.subrange(8, 0x10));
            assert(a.parent_dir_offset.le_bytes() + a.next_file_offset.le_bytes() =~= sa.subrange(0, 8));
            assert(b.parent_dir_offset.le_bytes() + b.next_file_offset.le_bytes() =~= sb.subrange(0, 8));
            assert(a.next_file_offset.le_bytes() =~= sa.subrange(4, 8));
            assert(b.next_file_offset.le_bytes() =~= sb.subrange(4, 8));
            assert(a.parent_dir_offset.le_bytes() =~= sa.subrange(0, 4));
            assert(b.parent_dir_offset.le_bytes() =~= sb.subrange(0, 4));
            assert(a.parent_dir_offset.le_bytes() =~= sa.subrange(0, 4));
            assert(b.parent_dir_offset.le_bytes() =~= sb.subrange(0, 4));
            u32::lemma_injective(a.parent_dir_offset, b.parent_dir_offset);
            u32::lemma_injective(a.next_file_offset, b.next_file_offset);
            u64::lemma_injective(a.data_offset, b.data_offset);
            u64::lemma_injective(a.data_length, b.data_length);
            u32::lemma_injective(a.same_hash_next_file_offset, b.same_hash_next_file_offset);
            u32::lemma_injective(a.name_length, b.name_length);
            assert(a == b);
        }
    }

    exec fn byte_len() -> (n: usize) {
        0x20
    }

    exec fn write_le_bytes(&self, bytes: &mut [u8], pos: usize) {
        let buf_len = bytes.len();
        proof {
            assert(buf_len == bytes@.len());
            self.parent_dir_offset.lemma_len();
            self.next_file_offset.lemma_len();
            self.data_offset.lemma_len();
            self.data_length.lemma_len();
            self.same_hash_next_file_offset.lemma_len();
            self.name_length.lemma_len();
        }
        self.parent_dir_offset.write_le_bytes(bytes, pos);
        self.next_file_offset.write_le_bytes(bytes, pos + 4);
        proof {
            lemma_spliced_append(old(bytes)@, pos as int, self.parent_dir_offset.le_bytes(), self.next_file_offset.le_bytes());
        }
        self.data_offset.write_le_bytes(bytes, pos + 8);
        proof {
            lemma_spliced_append(old(bytes)@, pos as int, self.parent_dir_offset.le_bytes() + self.next_file_offset.le_bytes(), self.data_offset.le_bytes());
        }
        self.data_length.write_le_bytes(bytes, pos + 0x10);
        proof {
            lemma_spliced_append(old(bytes)@, pos as int, self.parent_dir_offset.le_bytes() + self.next_file_offset.le_bytes() + self.data_offset.le_bytes(), self.data_length.le_bytes());
        }
        self.same_hash_next_file_offset.write_le_bytes(bytes, pos + 0x18);
        proof {
            lemma_spliced_append(old(bytes)@, pos as int, self.parent_dir_offset.le_bytes() + self.next_file_offset.le_bytes() + self.data_offset.le_bytes() + self.data_length.le_bytes(), self.same_hash_next_file_offset.le_bytes());
        }
        self.name_length.write_le_bytes(bytes, pos + 0x1c);
        proof {
            lemma_spliced_append(old(bytes)@, pos as int, self.parent_dir_offset.le_bytes() + self.next_file_offset.le_bytes() + self.data_offset.le_bytes() + self.data_length.le_bytes() + self.same_hash_next_file_offset.le_bytes(), self.name_length.le_bytes());
        }
    }

    exec fn read_le_bytes(bytes: &[u8], pos: usize) -> (r: Self) {
        let buf_len = bytes.len();
        proof {
            assert(buf_len == bytes@.len());
        }
        let parent_dir_offset = u32::read_le_bytes(bytes, pos);
        let next_file_offset = u32::read_le_bytes(bytes, pos + 4);
        let data_offset = u64::read_le_bytes(bytes, pos + 8);
        let data_length = u64::read_le_bytes(bytes, pos + 0x10);
        let same_hash_next_file_offset = u32::read_le_bytes(bytes, pos + 0x18);
        let name_length = u32::read_le_bytes(bytes, pos + 0x1c);
        let r = FileMetadata { parent_dir_offset, next_file_offset, data_offset, data_length, same_hash_next_file_offset, name_length };
        proof {
            assert(r.parent_dir_offset.le_bytes() + r.next_file_offset.le_bytes() =~= bytes@.subrange(pos as int, pos + 8));
            assert(r.parent_dir_offset.le_bytes() + r.next_file_offset.le_bytes() + r.data_offset.le_bytes() =~= bytes@.subrange(pos as int, pos + 0x10));
            assert(r.parent_dir_offset.le_bytes() + r.next_file_offset.le_bytes() + r.data_offset.le_bytes() + r.data_length.le_bytes() =~= bytes@.subrange(pos as int, pos + 0x18));
            assert(r.parent_dir_offset.le_bytes() + r.next_file_offset.le_bytes() + r.data_offset.le_bytes() + r.data_length.le_bytes() + r.same_hash_next_file_offset.le_bytes() =~= bytes@.subrange(pos as int, pos + 0x1c));
            assert(r.parent_dir_offset.le_bytes() + r.next_file_offset.le_bytes() + r.data_offset.le_bytes() + r.data_length.le_bytes() + r.same_hash_next_file_offset.le_bytes() + r.name_length.le_bytes() =~= bytes@.subrange(pos as int, pos + 0x20));
        }
        r
    }

    exec fn write_be_bytes(&self, bytes: &mut [u8], pos: usize) {
        self.write_le_bytes(bytes, pos);
    }

    exec fn read_be_bytes(bytes: &[u8], pos: usize) -> (r: Self) {
        Self::read_le_bytes(bytes, pos)
    }
}

impl ByteStruct for FileMetadata {
}
/// The code units of a stored name match the UTF-16LE bytes at `pos`.
pub open spec fn spec_name_matches(romfs: Seq<u8>, pos: int, units: Seq<u16>) -> bool {
    forall|j: int|
        0 <= j < units.len() ==> #[trigger] units[j].le_bytes() == romfs.subrange(
            pos + 2 * j,
            pos + 2 * j + 2,
        )
}

/// The header fields as stored at the front of the image.
pub open spec fn spec_header_at(s: Seq<u8>) -> Header {
    Header {
        header_length: spec_le32(s, 0),
        dir_hash_table_offset: spec_le32(s, 4),
        dir_hash_table_length: spec_le32(s, 8),
        dir_table_offset: spec_le32(s, 12),
        dir_table_length: spec_le32(s, 16),
        file_hash_table_offset: spec_le32(s, 20),
        file_hash_table_length: spec_le32(s, 24),
        file_table_offset: spec_le32(s, 28),
        file_table_length: spec_le32(s, 32),
        data_offset: spec_le32(s, 36),
    }
}

/// The directory entry stored at `off`.
pub open spec fn spec_dir_at(s: Seq<u8>, off: int) -> DirectoryMetadata {
    DirectoryMetadata {
        parent_dir_offset: spec_le32(s, off),
        next_dir_offset: spec_le32(s, off + 4),
        first_child_dir_offset: spec_le32(s, off + 8),
        first_file_offset: spec_le32(s, off + 12),
        same_hash_next_dir_offet: spec_le32(s, off + 16),
        name_length: spec_le32(s, off + 20),
    }
}

/// The 64-bit little-endian value stored at `pos`, as its two halves.
pub open spec fn spec_le64(s: Seq<u8>, pos: int) -> u64 {
    (spec_le32(s, pos) as u64) | ((spec_le32(s, pos + 4) as u64) << 32)
}

/// The file entry stored at `off`.
pub open spec fn spec_file_at(s: Seq<u8>, off: int) -> FileMetadata {
    FileMetadata {
        parent_dir_offset: spec_le32(s, off),
        next_file_offset: spec_le32(s, off + 4),
        data_offset: spec_le64(s, off + 8),
        data_length: spec_le64(s, off + 16),
        same_hash_next_file_offset: spec_le32(s, off + 24),
        name_length: spec_le32(s, off + 28),
    }
}

/// The directory of the given name along the sibling chain starting at
/// `child`, walked with bounded fuel; the end-of-chain marker, an entry
/// out of bounds, or exhausted fuel miss.
pub open spec fn spec_find_dir(
    s: Seq<u8>,
    dir_table: int,
    child: u32,
    units: Seq<u16>,
    fuel: nat,
) -> Option<DirectoryMetadata>
    decreases fuel,
{
    if child == 0xFFFFFFFF || fuel == 0 {
        None
    } else {
        let cd = dir_table + child;
        if cd + 0x18 > s.len() {
            None
        } else {
            let d = spec_dir_at(s, cd);
            if d.name_length == 2 * units.len() && cd + 0x18 + d.name_length <= s.len()
                && spec_name_matches(s, cd + 0x18, units) {
                Some(d)
            } else {
                spec_find_dir(s, dir_table, d.next_dir_offset, units, (fuel - 1) as nat)
            }
        }
    }
}

/// The directory reached by following the name chain of every component
/// from `names[i]` on, starting at `dir`.
pub open spec fn spec_walk_dirs(
    s: Seq<u8>,
    dir_table: int,
    dir: DirectoryMetadata,
    names: Seq<Seq<u16>>,
    i: int,
) -> Option<DirectoryMetadata>
    decreases (if i >= names.len() {
        0int
    } else {
        names.len() - i
    }),
{
    if i >= names.len() {
        Some(dir)
    } else {
        match spec_find_dir(s, dir_table, dir.first_child_dir_offset, names[i], s.len()) {
            None => None,
            Some(d) => spec_walk_dirs(s, dir_table, d, names, i + 1),
        }
    }
}

/// The offset of the file entry of the given name along the chain
/// starting at `off`, walked with bounded fuel.
pub open spec fn spec_find_file(
    s: Seq<u8>,
    file_table: int,
    off: u32,
    units: Seq<u16>,
    fuel: nat,
) -> Option<int>
    decreases fuel,
{
    if off == 0xFFFFFFFF || fuel == 0 {
        None
    } else {
        let cf = file_table + off;
        if cf + 0x20 > s.len() {
            None
        } else {
            let f = spec_file_at(s, cf);
            if f.name_length == 2 * units.len() && cf + 0x20 + f.name_length <= s.len()
                && spec_name_matches(s, cf + 0x20, units) {
                Some(cf)
            } else {
                spec_find_file(s, file_table, f.next_file_offset, units, (fuel - 1) as nat)
            }
        }
    }
}

/// The UTF-16 names of the leading path components, which name directories.
pub open spec fn spec_component_names(path: Seq<String>) -> Seq<Seq<u16>> {
    Seq::new((path.len() - 1) as nat, |i: int| utf16_of(path[i]@))
}

/// The data byte range of the file the path names: the root directory
/// walked through every directory component, then the file chain of the
/// final directory, then the entry's recorded data range, all in bounds.
pub open spec fn spec_lookup(s: Seq<u8>, names: Seq<Seq<u16>>, last: Seq<u16>) -> Option<
    (int, int),
> {
    let hdr = spec_header_at(s);
    if hdr.dir_table_offset + 0x18 > s.len() {
        None
    } else {
        let root = spec_dir_at(s, hdr.dir_table_offset as int);
        match spec_walk_dirs(s, hdr.dir_table_offset as int, root, names, 0) {
            None => None,
            Some(dir) => match spec_find_file(
                s,
                hdr.file_table_offset as int,
                dir.first_file_offset,
                last,
                s.len(),
            ) {
                None => None,
                Some(cf) => {
                    let f = spec_file_at(s, cf);
                    if f.data_offset <= s.len() && hdr.data_offset <= s.len() - f.data_offset
                        && f.data_length <= s.len() - (hdr.data_offset + f.data_offset) {
                        Some(
                            (
                                hdr.data_offset + f.data_offset,
                                hdr.data_offset + f.data_offset + f.data_length,
                            ),
                        )
                    } else {
                        None
                    }
                },
            },
        }
    }
}

/// The UTF-16 code units of a name.
pub uninterp spec fn utf16_of(s: Seq<char>) -> Seq<u16>;

/// Relies on str::encode_utf16: the UTF-16 code units of a string, a
/// function of its characters alone.
#[verifier::external_body]
fn encode_utf16_units(s: &String) -> (r: Vec<u16>)
    ensures
        r@ == utf16_of(s@),
{
    s.encode_utf16().collect()
}

/// Whether the UTF-16LE bytes stored at `pos` spell out `units`.
fn units_match(romfs: &[u8], pos: usize, units: &Vec<u16>) -> (r: bool)
    requires
        pos + 2 * units@.len() <= romfs@.len(),
    ensures
        r == spec_name_matches(romfs@, pos as int, units@),
{
    let rl = romfs.len();
    proof {
        assert(rl == romfs@.len());
    }
    let n = units.len();
    let mut j: usize = 0;
    while j < n
        invariant
            j <= n,
            n == units@.len(),
            pos + 2 * n <= romfs@.len(),
            romfs@.len() <= usize::MAX,
            forall|k: int|
                0 <= k < j ==> #[trigger] units@[k].le_bytes() == romfs@.subrange(
                    pos + 2 * k,
                    pos + 2 * k + 2,
                ),
        decreases n - j,
    {
        let stored = u16::read_le_bytes(romfs, pos + 2 * j);
        if stored != units[j] {
            proof {
                u16::lemma_injective(stored, units@[j as int]);
            }
            return false;
        }
        j = j + 1;
    }
    true
}

/// Looks a file up by its path components: the leading components name
/// directories walked from the root, the last one names the file, and the
/// result is the named file's recorded data bytes.  The walk follows the
/// stored sibling chains, giving up on a chain longer than the image.
#[verifier::loop_isolation(false)]
#[verifier::rlimit(100)]
pub fn get_romfs_file<'a>(romfs: &'a [u8], path: &[String]) -> (r: Option<&'a [u8]>)
    requires
        romfs@.len() >= 0x28,
        path@.len() >= 1,
    ensures
        ({
            let found = spec_lookup(
                romfs@,
                spec_component_names(path@),
                utf16_of(path@[path@.len() - 1]@),
            );
            &&& (r is Some <==> found is Some)
            &&& (r is Some ==> (r->Some_0)@ == romfs@.subrange(
                found->Some_0.0,
                found->Some_0.1,
            ))
        }),
{
    let ghost names = spec_component_names(path@);
    let ghost last = utf16_of(path@[path@.len() - 1]@);
    let ghost target = spec_lookup(romfs@, names, last);
    let n = romfs.len();
    let n64 = n as u64;
    let invalid: u32 = 0xFFFFFFFF;
    let ghost hdr = spec_header_at(romfs@);
    let dir_table = read_le32(romfs, 12);
    let file_table = read_le32(romfs, 28);
    let data_offset = read_le32(romfs, 36);

    if dir_table as u64 + 0x18 > n64 {
        return None;
    }
    let dto = dir_table as usize;
    let mut cur_first_child = read_le32(romfs, dto + 8);
    let mut cur_first_file = read_le32(romfs, dto + 12);
    let ghost mut cur_dir = spec_dir_at(romfs@, dir_table as int);
    proof {
        assert(spec_walk_dirs(romfs@, dir_table as int, cur_dir, names, 0) == spec_walk_dirs(
            romfs@,
            dir_table as int,
            spec_dir_at(romfs@, hdr.dir_table_offset as int),
            names,
            0,
        ));
    }

    let plen = path.len();
    let mut ci: usize = 0;
    while ci < plen - 1
        invariant
            plen >= 1,
            plen == path@.len(),
            ci <= plen - 1,
            cur_first_child == cur_dir.first_child_dir_offset,
            cur_first_file == cur_dir.first_file_offset,
            spec_walk_dirs(romfs@, dir_table as int, cur_dir, names, ci as int) == spec_walk_dirs(
                romfs@,
                dir_table as int,
                spec_dir_at(romfs@, hdr.dir_table_offset as int),
                names,
                0,
            ),
        decreases plen - ci,
    {
        let units = encode_utf16_units(&path[ci]);
        proof {
            assert(units@ == names[ci as int]);
        }
        if units.len() > 0x7FFFFFFF {
            proof {
                lemma_find_dir_long_name(
                    romfs@,
                    dir_table as int,
                    cur_dir.first_child_dir_offset,
                    units@,
                    n as nat,
                );
            }
            return None;
        }
        let want_len = (units.len() as u64) * 2;
        let mut child = cur_first_child;
        let mut steps = n;
        let mut found = false;
        while !found && child != invalid && steps > 0
            invariant
                units@.len() <= 0x7FFFFFFF,
                want_len == units@.len() * 2,
                units@ == names[ci as int],
                ci < plen - 1,
                found ==> spec_find_dir(
                    romfs@,
                    dir_table as int,
                    cur_dir.first_child_dir_offset,
                    units@,
                    n as nat,
                ) == Some(spec_dir_at(romfs@, dir_table + child)),
                found ==> cur_first_child == spec_dir_at(
                    romfs@,
                    dir_table + child,
                ).first_child_dir_offset && cur_first_file == spec_dir_at(
                    romfs@,
                    dir_table + child,
                ).first_file_offset,
                !found ==> spec_find_dir(romfs@, dir_table as int, child, units@, steps as nat)
                    == spec_find_dir(
                    romfs@,
                    dir_table as int,
                    cur_dir.first_child_dir_offset,
                    units@,
                    n as nat,
                ),
                !found ==> cur_first_child == cur_dir.first_child_dir_offset,
            decreases steps,
        {
            let cd64 = dir_table as u64 + child as u64;
            if cd64 + 0x18 > n64 {
                return None;
            }
            let cd = cd64 as usize;
            let d_next = read_le32(romfs, cd + 4);
            let d_name_len = read_le32(romfs, cd + 20);
            let name_begin = cd64 + 0x18;
            if d_name_len as u64 == want_len && name_begin + want_len <= n64 && units_match(
                romfs,
                name_begin as usize,
                &units,
            ) {
                cur_first_child = read_le32(romfs, cd + 8);
                cur_first_file = read_le32(romfs, cd + 12);
                found = true;
                proof {
                    assert(spec_find_dir(romfs@, dir_table as int, child, units@, steps as nat)
                        == Some(spec_dir_at(romfs@, dir_table + child)));
                }
            } else {
                proof {
                    assert(spec_find_dir(romfs@, dir_table as int, child, units@, steps as nat)
                        == spec_find_dir(
                        romfs@,
                        dir_table as int,
                        d_next,
                        units@,
                        (steps - 1) as nat,
                    ));
                }
                child = d_next;
            }
            steps = steps - 1;
        }
        if !found {
            proof {
                assert(spec_find_dir(
                    romfs@,
                    dir_table as int,
                    cur_dir.first_child_dir_offset,
                    units@,
                    n as nat,
                ) is None);
            }
            return None;
        }
        proof {
            cur_dir = spec_dir_at(romfs@, dir_table + child);
        }
        ci = ci + 1;
    }

    let units = encode_utf16_units(&path[plen - 1]);
    proof {
        assert(units@ == last);
        assert(spec_walk_dirs(romfs@, dir_table as int, cur_dir, names, ci as int) == Some(
            cur_dir,
        ));
    }
    if units.len() > 0x7FFFFFFF {
        proof {
            lemma_find_file_long_name(
                romfs@,
                file_table as int,
                cur_dir.first_file_offset,
                units@,
                n as nat,
            );
        }
        return None;
    }
    let want_len = (units.len() as u64) * 2;
    let mut file_offset = cur_first_file;
    let mut steps = n;
    while file_offset != invalid && steps > 0
        invariant
            units@.len() <= 0x7FFFFFFF,
            want_len == units@.len() * 2,
            units@ == last,
            spec_find_file(romfs@, file_table as int, file_offset, units@, steps as nat)
                == spec_find_file(
                romfs@,
                file_table as int,
                cur_dir.first_file_offset,
                units@,
                n as nat,
            ),
        decreases steps,
    {
        let cf64 = file_table as u64 + file_offset as u64;
        if cf64 + 0x20 > n64 {
            return None;
        }
        let cf = cf64 as usize;
        let f_next = read_le32(romfs, cf + 4);
        let f_name_len = read_le32(romfs, cf + 28);
        let name_begin = cf64 + 0x20;
        if f_name_len as u64 == want_len && name_begin + want_len <= n64 && units_match(
            romfs,
            name_begin as usize,
            &units,
        ) {
            proof {
                assert(spec_find_file(romfs@, file_table as int, file_offset, units@, steps as nat)
                    == Some(cf64 as int));
            }
            let data_off_lo = read_le32(romfs, cf + 8);
            let data_off_hi = read_le32(romfs, cf + 12);
            let f_data_offset = (data_off_lo as u64) | ((data_off_hi as u64) << 32);
            let data_len_lo = read_le32(romfs, cf + 16);
            let data_len_hi = read_le32(romfs, cf + 20);
            let f_data_length = (data_len_lo as u64) | ((data_len_hi as u64) << 32);
            proof {
                assert(f_data_offset == spec_file_at(romfs@, cf64 as int).data_offset);
                assert(f_data_length == spec_file_at(romfs@, cf64 as int).data_length);
            }
            if f_data_offset > n64 || data_offset as u64 > n64 - f_data_offset {
                return None;
            }
            let data_begin = data_offset as u64 + f_data_offset;
            if f_data_length > n64 - data_begin {
                return None;
            }
            let data = slice_subrange(
                romfs,
                data_begin as usize,
                (data_begin + f_data_length) as usize,
            );
            return Some(data);
        }
        proof {
            assert(spec_find_file(romfs@, file_table as int, file_offset, units@, steps as nat)
                == spec_find_file(
                romfs@,
                file_table as int,
                f_next,
                units@,
                (steps - 1) as nat,
            ));
        }
        file_offset = f_next;
        steps = steps - 1;
    }
    proof {
        assert(spec_find_file(
            romfs@,
            file_table as int,
            cur_dir.first_file_offset,
            units@,
            n as nat,
        ) is None);
    }
    None
}

/// A chain search for a name longer than the image never hits: the stored
/// name length cannot reach twice such a unit count.
proof fn lemma_find_dir_long_name(s: Seq<u8>, dir_table: int, child: u32, units: Seq<u16>, fuel: nat)
    requires
        units.len() > 0x7FFFFFFF,
    ensures
        spec_find_dir(s, dir_table, child, units, fuel) is None,
    decreases fuel,
{
    if child == 0xFFFFFFFF || fuel == 0 {
    } else {
        let cd = dir_table + child;
        if cd + 0x18 > s.len() {
        } else {
            let d = spec_dir_at(s, cd);
            assert(d.name_length < 0x100000000);
            lemma_find_dir_long_name(s, dir_table, d.next_dir_offset, units, (fuel - 1) as nat);
        }
    }
}

/// The same bound for the file chain.
proof fn lemma_find_file_long_name(
    s: Seq<u8>,
    file_table: int,
    off: u32,
    units: Seq<u16>,
    fuel: nat,
)
    requires
        units.len() > 0x7FFFFFFF,
    ensures
        spec_find_file(s, file_table, off, units, fuel) is None,
    decreases fuel,
{
    if off == 0xFFFFFFFF || fuel == 0 {
    } else {
        let cf = file_table + off;
        if cf + 0x20 > s.len() {
        } else {
            let f = spec_file_at(s, cf);
            assert(f.name_length < 0x100000000);
            lemma_find_file_long_name(s, file_table, f.next_file_offset, units, (fuel - 1) as nat);
        }
    }
}

} // verus!
