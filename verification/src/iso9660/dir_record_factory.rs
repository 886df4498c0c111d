use vstd::prelude::*;
use vstd::string::StringSliceAdditionalSpecFns;
use vstd::utf8::encode_utf8;
use crate::iso9660::dir_record::{dir_record_layout, DirRecord, DirRecordView};

verus! {

/// Whether the record length of an identifier of `n` bytes stays within a
/// byte: 33 fixed bytes, the identifier length kept modulo 256, and a
/// padding byte for an even length.
pub open spec fn record_len_fits(n: nat) -> bool {
    (n % 256) + 33 + (if n % 2 == 0 { 1int } else { 0int }) <= 255
}

/// The record `create_file` (flags 0) or `create_dir` (flags 2) makes for
/// an identifier `name` of `n` bytes: 33 fixed bytes, the identifier length
/// kept modulo 256, and a padding byte for an even length.
pub open spec fn record_for(name: Seq<char>, sector: u32, size: u32, flags: u8) -> DirRecordView {
    let n = encode_utf8(name).len();
    DirRecordView {
        len: ((n % 256) + 33 + (if n % 2 == 0 { 1int } else { 0int })) as u8,
        extend_attr_len: 0,
        extend_loc: sector,
        data_len: size,
        file_flags: flags,
        file_unit_size: 0,
        interleave_gap_size: 0,
        volume_sequence_number: 1,
        file_id_len: (n % 256) as u8,
        file_id: name,
    }
}

/// Makes the directory records of files and directories.
pub struct DirRecordFactory;

impl Default for DirRecordFactory {
    fn default() -> (r: DirRecordFactory) {
        DirRecordFactory
    }
}

impl DirRecordFactory {
    pub fn new() -> (r: DirRecordFactory) {
        DirRecordFactory
    }

    /// The record of a file named `name` whose data starts at `sector` and
    /// spans `size` bytes.
    pub fn create_file(&self, name: &str, sector: u32, size: u32) -> (r: DirRecord)
        requires
            record_len_fits(encode_utf8(name@).len()),
        ensures
            r@ == record_for(name@, sector, size, 0),
    {
        let mut dir = DirRecord::default();
        dir.file_id = name.to_string();
        let n = name.as_bytes().len();
        dir.file_id_len = (n % 256) as u8;
        dir.len = 33 + (n % 256) as u8;
        if n % 2 == 0 {
            dir.len = dir.len + 1;
        }
        dir.volume_sequence_number = 1;
        dir.extend_loc = sector;
        dir.data_len = size;
        dir
    }

    /// The record of a directory: a file record with the directory flag.
    pub fn create_dir(&self, name: &str, sector: u32, size: u32) -> (r: DirRecord)
        requires
            record_len_fits(encode_utf8(name@).len()),
        ensures
            r@ == record_for(name@, sector, size, 0x02),
    {
        let mut dir = self.create_file(name, sector, size);
        dir.file_flags = 0x02;
        dir
    }
}

/// A record made by the factory spans exactly the length it states, as long
/// as the identifier is shorter than 256 bytes (the length byte keeps it
/// modulo 256).
pub proof fn lemma_record_spans_its_len(name: Seq<char>, sector: u32, size: u32, flags: u8)
    requires
        encode_utf8(name).len() < 256,
        record_len_fits(encode_utf8(name).len()),
    ensures
        dir_record_layout(record_for(name, sector, size, flags)).len() == record_for(name, sector, size, flags).len,
{
    reveal(dir_record_layout);
}

} // verus!
