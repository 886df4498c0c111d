use vstd::prelude::*;
use vstd::string::StringSliceAdditionalSpecFns;
use vstd::utf8::encode_utf8;
use crate::iso9660::binary_writer::{
    u16_be_bytes, u16_le_bytes, u32_be_bytes, u32_le_bytes, BinaryWriter, WriteError,
};
use crate::iso9660::layout::{
    gap, lemma_overlay_empty, lemma_step_gap, lemma_step_write, overlay, somes,
};

verus! {

/// A directory record: where a file or directory of the image lies and how
/// long it is.
pub struct DirRecord {
    pub len: u8,
    pub extend_attr_len: u8,
    pub extend_loc: u32,
    pub data_len: u32,
    pub file_flags: u8,
    pub file_unit_size: u8,
    pub interleave_gap_size: u8,
    pub volume_sequence_number: u16,
    pub file_id_len: u8,
    pub file_id: String,
}

/// The fields of a directory record, with the identifier as text.
pub struct DirRecordView {
    pub len: u8,
    pub extend_attr_len: u8,
    pub extend_loc: u32,
    pub data_len: u32,
    pub file_flags: u8,
    pub file_unit_size: u8,
    pub interleave_gap_size: u8,
    pub volume_sequence_number: u16,
    pub file_id_len: u8,
    pub file_id: Seq<char>,
}

impl View for DirRecord {
    type V = DirRecordView;

    open spec fn view(&self) -> DirRecordView {
        DirRecordView {
            len: self.len,
            extend_attr_len: self.extend_attr_len,
            extend_loc: self.extend_loc,
            data_len: self.data_len,
            file_flags: self.file_flags,
            file_unit_size: self.file_unit_size,
            interleave_gap_size: self.interleave_gap_size,
            volume_sequence_number: self.volume_sequence_number,
            file_id_len: self.file_id_len,
            file_id: self.file_id@,
        }
    }
}

/// The bytes before the recording date of a record.
pub open spec fn dir_record_head(d: DirRecordView) -> Seq<u8> {
    seq![d.len, d.extend_attr_len] + u32_le_bytes(d.extend_loc) + u32_be_bytes(d.extend_loc)
        + u32_le_bytes(d.data_len) + u32_be_bytes(d.data_len)
}

/// The bytes after the recording date of a record: flags, sizes, volume
/// sequence number, identifier and the padding byte that an even identifier
/// length asks for.
pub open spec fn dir_record_tail(d: DirRecordView) -> Seq<u8> {
    seq![d.file_flags, d.file_unit_size, d.interleave_gap_size] + u16_le_bytes(d.volume_sequence_number)
        + u16_be_bytes(d.volume_sequence_number) + seq![d.file_id_len] + encode_utf8(d.file_id)
        + (if d.file_id_len % 2 == 0 { seq![0u8] } else { Seq::<u8>::empty() })
}

/// What `DirRecord::write` lays down: the head, seven skipped bytes of
/// recording date and time, and the tail.
#[verifier::opaque]
pub open spec fn dir_record_layout(d: DirRecordView) -> Seq<Option<u8>> {
    somes(dir_record_head(d)) + gap(7) + somes(dir_record_tail(d))
}

/// A record with every field zero and an empty identifier.
pub open spec fn empty_record() -> DirRecordView {
    DirRecordView {
        len: 0,
        extend_attr_len: 0,
        extend_loc: 0,
        data_len: 0,
        file_flags: 0,
        file_unit_size: 0,
        interleave_gap_size: 0,
        volume_sequence_number: 0,
        file_id_len: 0,
        file_id: Seq::empty(),
    }
}

impl Default for DirRecord {
    fn default() -> (r: DirRecord)
        ensures
            r@ == empty_record(),
    {
        DirRecord {
            len: 0,
            extend_attr_len: 0,
            extend_loc: 0,
            data_len: 0,
            file_flags: 0,
            file_unit_size: 0,
            interleave_gap_size: 0,
            volume_sequence_number: 0,
            file_id_len: 0,
            file_id: String::new(),
        }
    }
}

impl Clone for DirRecord {
    fn clone(&self) -> (r: DirRecord)
        ensures
            r == *self,
    {
        DirRecord {
            len: self.len,
            extend_attr_len: self.extend_attr_len,
            extend_loc: self.extend_loc,
            data_len: self.data_len,
            file_flags: self.file_flags,
            file_unit_size: self.file_unit_size,
            interleave_gap_size: self.interleave_gap_size,
            volume_sequence_number: self.volume_sequence_number,
            file_id_len: self.file_id_len,
            file_id: self.file_id.clone(),
        }
    }
}

impl DirRecord {
    /// Writes the record at the position of `writer`.
    pub fn write(&self, writer: &mut BinaryWriter) -> (r: Result<(), WriteError>)
        ensures
            old(writer).position() + dir_record_layout(self@).len() <= usize::MAX ==> {
                &&& r is Ok
                &&& final(writer).bytes() == overlay(old(writer).bytes(), old(writer).position() as int, dir_record_layout(self@))
                &&& final(writer).position() == old(writer).position() + dir_record_layout(self@).len()
            },
            old(writer).position() + dir_record_layout(self@).len() > usize::MAX ==> r is Err,
    {
        let ghost d0 = writer.bytes();
        let ghost p0 = writer.position() as int;
        let ghost laid = Seq::<Option<u8>>::empty();
        proof { lemma_overlay_empty(d0, p0); reveal(dir_record_layout); }
        writer.write_byte(self.len)?;
        proof { lemma_step_write(d0, p0, laid, seq![self.len]); laid = laid + somes(seq![self.len]); }
        writer.write_byte(self.extend_attr_len)?;
        proof { lemma_step_write(d0, p0, laid, seq![self.extend_attr_len]); laid = laid + somes(seq![self.extend_attr_len]); }
        writer.write_u32_le_be(self.extend_loc)?;
        proof {
            let b = u32_le_bytes(self.extend_loc) + u32_be_bytes(self.extend_loc);
            lemma_step_write(d0, p0, laid, b); laid = laid + somes(b);
        }
        writer.write_u32_le_be(self.data_len)?;
        proof {
            let b = u32_le_bytes(self.data_len) + u32_be_bytes(self.data_len);
            lemma_step_write(d0, p0, laid, b); laid = laid + somes(b);
            assert(laid =~= somes(dir_record_head(self@)));
        }
        writer.skip(7)?; // Recording date and time
        proof { lemma_step_gap(d0, p0, laid, 7); laid = laid + gap(7); }
        let ghost before_tail = laid;
        writer.write_byte(self.file_flags)?;
        proof { lemma_step_write(d0, p0, laid, seq![self.file_flags]); laid = laid + somes(seq![self.file_flags]); }
        writer.write_byte(self.file_unit_size)?;
        proof { lemma_step_write(d0, p0, laid, seq![self.file_unit_size]); laid = laid + somes(seq![self.file_unit_size]); }
        writer.write_byte(self.interleave_gap_size)?;
        proof { lemma_step_write(d0, p0, laid, seq![self.interleave_gap_size]); laid = laid + somes(seq![self.interleave_gap_size]); }
        writer.write_u16_le_be(self.volume_sequence_number)?;
        proof {
            let b = u16_le_bytes(self.volume_sequence_number) + u16_be_bytes(self.volume_sequence_number);
            lemma_step_write(d0, p0, laid, b); laid = laid + somes(b);
        }
        writer.write_byte(self.file_id_len)?;
        proof { lemma_step_write(d0, p0, laid, seq![self.file_id_len]); laid = laid + somes(seq![self.file_id_len]); }
        writer.write_bytes(self.file_id.as_str().as_bytes())?;
        proof {
            let b = encode_utf8(self.file_id@);
            lemma_step_write(d0, p0, laid, b); laid = laid + somes(b);
        }
        // Padding
        if self.file_id_len % 2 == 0 {
            writer.write_byte(0x00)?;
            proof { lemma_step_write(d0, p0, laid, seq![0u8]); laid = laid + somes(seq![0u8]); }
        }
        proof {
            reveal(dir_record_layout);
            assert(laid =~= dir_record_layout(self@));
        }
        Ok(())
    }
}

} // verus!
