use vstd::prelude::*;
use crate::iso9660::binary_writer::{
    cuts_at_char, padded_field, u16_be_bytes, u16_le_bytes, u32_be_bytes, u32_le_bytes,
    BinaryWriter, WriteError, SECTOR_SIZE,
};
use crate::iso9660::dir_record::{dir_record_layout, empty_record, DirRecord};
use crate::iso9660::layout::{
    laid_down, gap, lemma_overlay_concat, lemma_overlay_empty, lemma_step_gap, lemma_step_write, overlay,
    somes,
};
use crate::iso9660::volume_desc::{volume_desc_bytes, volume_desc_writable, VolumeDesc};

verus! {

/// The primary volume descriptor: the identity, size and root directory of
/// the image.
pub struct PrimaryVolumeDesc {
    pub vd: VolumeDesc,
    pub system_id: String,
    pub volume_id: String,
    pub volume_space_size: u32,
    pub volume_set_size: u16,
    pub volume_sequence_number: u16,
    pub logical_block_size: u16,
    pub path_table_size: u32,
    pub lpath_table_loc: u32,
    pub optional_lpath_table_loc: u32,
    pub mpath_table_loc: u32,
    pub optional_mpath_table_loc: u32,
    pub root_dir: DirRecord,
    pub volume_set_id: String,
    pub publisher_id: String,
    pub data_prepare_id: String,
    pub application_id: String,
    pub copyright_file_id: String,
    pub abstract_file_id: String,
    pub bibliographic_file_id: String,
    pub file_structure_version: u8,
}

/// The layout from the header to the volume space size.
pub open spec fn pvd_layout_ids(p: PrimaryVolumeDesc) -> Seq<Option<u8>> {
    somes(volume_desc_bytes(p.vd)) + gap(1) + somes(padded_field(p.system_id@, 32))
        + somes(padded_field(p.volume_id@, 32)) + gap(8)
        + somes(u32_le_bytes(p.volume_space_size) + u32_be_bytes(p.volume_space_size)) + gap(32)
}

/// The numbers between the volume space size and the root directory record.
pub open spec fn pvd_numbers(p: PrimaryVolumeDesc) -> Seq<u8> {
    u16_le_bytes(p.volume_set_size) + u16_be_bytes(p.volume_set_size)
        + u16_le_bytes(p.volume_sequence_number) + u16_be_bytes(p.volume_sequence_number)
        + u16_le_bytes(p.logical_block_size) + u16_be_bytes(p.logical_block_size)
        + u32_le_bytes(p.path_table_size) + u32_be_bytes(p.path_table_size)
        + u32_le_bytes(p.lpath_table_loc) + u32_le_bytes(p.optional_lpath_table_loc)
        + u32_be_bytes(p.mpath_table_loc) + u32_be_bytes(p.optional_mpath_table_loc)
}

/// The identifier fields behind the root directory record.
pub open spec fn pvd_strings(p: PrimaryVolumeDesc) -> Seq<u8> {
    padded_field(p.volume_set_id@, 128) + padded_field(p.publisher_id@, 128)
        + padded_field(p.data_prepare_id@, 128) + padded_field(p.application_id@, 128)
        + padded_field(p.copyright_file_id@, 37) + padded_field(p.abstract_file_id@, 37)
        + padded_field(p.bibliographic_file_id@, 37)
}

/// Everything behind the identifier fields: four skipped dates, the file
/// structure version, unused and reserved space, and a closing zero byte.
pub open spec fn pvd_layout_tail(p: PrimaryVolumeDesc) -> Seq<Option<u8>> {
    gap(17) + gap(17) + gap(17) + gap(17) + somes(seq![p.file_structure_version]) + gap(1)
        + gap(512) + gap(652) + somes(seq![0u8])
}

/// What `PrimaryVolumeDesc::write` lays down.
#[verifier::opaque]
pub open spec fn pvd_layout(p: PrimaryVolumeDesc) -> Seq<Option<u8>> {
    pvd_layout_ids(p) + somes(pvd_numbers(p)) + dir_record_layout(p.root_dir@) + somes(pvd_strings(p))
        + pvd_layout_tail(p)
}

/// Whether every text field can be cut to its field length.
pub open spec fn pvd_writable(p: PrimaryVolumeDesc) -> bool {
    &&& volume_desc_writable(p.vd)
    &&& cuts_at_char(p.system_id@, 32)
    &&& cuts_at_char(p.volume_id@, 32)
    &&& cuts_at_char(p.volume_set_id@, 128)
    &&& cuts_at_char(p.publisher_id@, 128)
    &&& cuts_at_char(p.data_prepare_id@, 128)
    &&& cuts_at_char(p.application_id@, 128)
    &&& cuts_at_char(p.copyright_file_id@, 37)
    &&& cuts_at_char(p.abstract_file_id@, 37)
    &&& cuts_at_char(p.bibliographic_file_id@, 37)
}

impl PrimaryVolumeDesc {
    /// A descriptor of type 1 with 2048 byte blocks and file structure
    /// version 1; every other field is zero or empty.
    pub fn new() -> (r: PrimaryVolumeDesc)
        ensures
            r.vd.typ == 1 && r.vd.id@ == "CD001"@ && r.vd.version == 1,
            r.logical_block_size == SECTOR_SIZE,
            r.file_structure_version == 1,
            r.system_id@ == Seq::<char>::empty() && r.volume_id@ == Seq::<char>::empty(),
            r.volume_space_size == 0 && r.volume_set_size == 0 && r.volume_sequence_number == 0,
            r.path_table_size == 0 && r.lpath_table_loc == 0 && r.optional_lpath_table_loc == 0,
            r.mpath_table_loc == 0 && r.optional_mpath_table_loc == 0,
            r.root_dir@ == empty_record(),
            r.volume_set_id@ == Seq::<char>::empty() && r.publisher_id@ == Seq::<char>::empty(),
            r.data_prepare_id@ == Seq::<char>::empty() && r.application_id@ == Seq::<char>::empty(),
            r.copyright_file_id@ == Seq::<char>::empty() && r.abstract_file_id@ == Seq::<char>::empty(),
            r.bibliographic_file_id@ == Seq::<char>::empty(),
    {
        let mut p = PrimaryVolumeDesc::default();
        p.vd = VolumeDesc::new(0x01);
        p.logical_block_size = SECTOR_SIZE as u16;
        p.file_structure_version = 1;
        p
    }

    fn write_ids(&self, writer: &mut BinaryWriter) -> (r: Result<(), WriteError>)
        requires
            pvd_writable(*self),
        ensures
            laid_down(&*old(writer), &*final(writer), pvd_layout_ids(*self), r is Ok),
    {
        let ghost d0 = writer.bytes();
        let ghost p0 = writer.position() as int;
        let ghost laid = Seq::<Option<u8>>::empty();
        proof { lemma_overlay_empty(d0, p0); }
        self.vd.write(writer)?;
        proof { assert(laid + somes(volume_desc_bytes(self.vd)) =~= somes(volume_desc_bytes(self.vd))); laid = somes(volume_desc_bytes(self.vd)); }
        writer.skip(1)?; // Unused
        proof { lemma_step_gap(d0, p0, laid, 1); laid = laid + gap(1); }
        writer.write_padded_string(self.system_id.as_str(), 32)?;
        proof { let b = padded_field(self.system_id@, 32); lemma_step_write(d0, p0, laid, b); laid = laid + somes(b); }
        writer.write_padded_string(self.volume_id.as_str(), 32)?;
        proof { let b = padded_field(self.volume_id@, 32); lemma_step_write(d0, p0, laid, b); laid = laid + somes(b); }
        writer.skip(8)?; // Unused
        proof { lemma_step_gap(d0, p0, laid, 8); laid = laid + gap(8); }
        writer.write_u32_le_be(self.volume_space_size)?;
        proof {
            let b = u32_le_bytes(self.volume_space_size) + u32_be_bytes(self.volume_space_size);
            lemma_step_write(d0, p0, laid, b); laid = laid + somes(b);
        }
        writer.skip(32)?; // Unused
        proof {
            lemma_step_gap(d0, p0, laid, 32); laid = laid + gap(32);
            assert(laid =~= pvd_layout_ids(*self));
        }
        Ok(())
    }

    fn write_numbers(&self, writer: &mut BinaryWriter) -> (r: Result<(), WriteError>)
        ensures
            laid_down(&*old(writer), &*final(writer), somes(pvd_numbers(*self)), r is Ok),
    {
        let ghost d0 = writer.bytes();
        let ghost p0 = writer.position() as int;
        let ghost laid = Seq::<Option<u8>>::empty();
        proof { lemma_overlay_empty(d0, p0); }
        writer.write_u16_le_be(self.volume_set_size)?;
        proof { let b = u16_le_bytes(self.volume_set_size) + u16_be_bytes(self.volume_set_size); lemma_step_write(d0, p0, laid, b); laid = laid + somes(b); }
        writer.write_u16_le_be(self.volume_sequence_number)?;
        proof { let b = u16_le_bytes(self.volume_sequence_number) + u16_be_bytes(self.volume_sequence_number); lemma_step_write(d0, p0, laid, b); laid = laid + somes(b); }
        writer.write_u16_le_be(self.logical_block_size)?;
        proof { let b = u16_le_bytes(self.logical_block_size) + u16_be_bytes(self.logical_block_size); lemma_step_write(d0, p0, laid, b); laid = laid + somes(b); }
        writer.write_u32_le_be(self.path_table_size)?;
        proof { let b = u32_le_bytes(self.path_table_size) + u32_be_bytes(self.path_table_size); lemma_step_write(d0, p0, laid, b); laid = laid + somes(b); }
        writer.write_u32_le(self.lpath_table_loc)?;
        proof { let b = u32_le_bytes(self.lpath_table_loc); lemma_step_write(d0, p0, laid, b); laid = laid + somes(b); }
        writer.write_u32_le(self.optional_lpath_table_loc)?;
        proof { let b = u32_le_bytes(self.optional_lpath_table_loc); lemma_step_write(d0, p0, laid, b); laid = laid + somes(b); }
        writer.write_u32_be(self.mpath_table_loc)?;
        proof { let b = u32_be_bytes(self.mpath_table_loc); lemma_step_write(d0, p0, laid, b); laid = laid + somes(b); }
        writer.write_u32_be(self.optional_mpath_table_loc)?;
        proof {
            let b = u32_be_bytes(self.optional_mpath_table_loc); lemma_step_write(d0, p0, laid, b); laid = laid + somes(b);
            assert(laid =~= somes(pvd_numbers(*self)));
        }
        Ok(())
    }

    fn write_strings(&self, writer: &mut BinaryWriter) -> (r: Result<(), WriteError>)
        requires
            pvd_writable(*self),
        ensures
            laid_down(&*old(writer), &*final(writer), somes(pvd_strings(*self)), r is Ok),
    {
        let ghost d0 = writer.bytes();
        let ghost p0 = writer.position() as int;
        let ghost laid = Seq::<Option<u8>>::empty();
        proof { lemma_overlay_empty(d0, p0); }
        writer.write_padded_string(self.volume_set_id.as_str(), 128)?;
        proof { let b = padded_field(self.volume_set_id@, 128); lemma_step_write(d0, p0, laid, b); laid = laid + somes(b); }
        writer.write_padded_string(self.publisher_id.as_str(), 128)?;
        proof { let b = padded_field(self.publisher_id@, 128); lemma_step_write(d0, p0, laid, b); laid = laid + somes(b); }
        writer.write_padded_string(self.data_prepare_id.as_str(), 128)?;
        proof { let b = padded_field(self.data_prepare_id@, 128); lemma_step_write(d0, p0, laid, b); laid = laid + somes(b); }
        writer.write_padded_string(self.application_id.as_str(), 128)?;
        proof { let b = padded_field(self.application_id@, 128); lemma_step_write(d0, p0, laid, b); laid = laid + somes(b); }
        writer.write_padded_string(self.copyright_file_id.as_str(), 37)?;
        proof { let b = padded_field(self.copyright_file_id@, 37); lemma_step_write(d0, p0, laid, b); laid = laid + somes(b); }
        writer.write_padded_string(self.abstract_file_id.as_str(), 37)?;
        proof { let b = padded_field(self.abstract_file_id@, 37); lemma_step_write(d0, p0, laid, b); laid = laid + somes(b); }
        writer.write_padded_string(self.bibliographic_file_id.as_str(), 37)?;
        proof {
            let b = padded_field(self.bibliographic_file_id@, 37); lemma_step_write(d0, p0, laid, b); laid = laid + somes(b);
            assert(laid =~= somes(pvd_strings(*self)));
        }
        Ok(())
    }

    fn write_tail(&self, writer: &mut BinaryWriter) -> (r: Result<(), WriteError>)
        ensures
            laid_down(&*old(writer), &*final(writer), pvd_layout_tail(*self), r is Ok),
    {
        let ghost d0 = writer.bytes();
        let ghost p0 = writer.position() as int;
        let ghost laid = Seq::<Option<u8>>::empty();
        proof { lemma_overlay_empty(d0, p0); }
        writer.skip(17)?; // Volume Creation Date and Time
        proof { lemma_step_gap(d0, p0, laid, 17); laid = laid + gap(17); }
        writer.skip(17)?; // Volume Modification Date and Time
        proof { lemma_step_gap(d0, p0, laid, 17); laid = laid + gap(17); }
        writer.skip(17)?; // Volume Expiration Date and Time
        proof { lemma_step_gap(d0, p0, laid, 17); laid = laid + gap(17); }
        writer.skip(17)?; // Volume Effective Date and Time
        proof { lemma_step_gap(d0, p0, laid, 17); laid = laid + gap(17); }
        writer.write_byte(self.file_structure_version)?;
        proof { lemma_step_write(d0, p0, laid, seq![self.file_structure_version]); laid = laid + somes(seq![self.file_structure_version]); }
        writer.skip(1)?; // Unused
        proof { lemma_step_gap(d0, p0, laid, 1); laid = laid + gap(1); }
        writer.skip(512)?; // Application Unused
        proof { lemma_step_gap(d0, p0, laid, 512); laid = laid + gap(512); }
        writer.skip(652)?; // Reserved
        proof { lemma_step_gap(d0, p0, laid, 652); laid = laid + gap(652); }
        writer.write_byte(0)?; // Reserved
        proof {
            lemma_step_write(d0, p0, laid, seq![0u8]); laid = laid + somes(seq![0u8]);
            assert(laid =~= pvd_layout_tail(*self));
        }
        Ok(())
    }

    /// Writes the whole descriptor at the position of `writer`.
    pub fn write(&self, writer: &mut BinaryWriter) -> (r: Result<(), WriteError>)
        requires
            pvd_writable(*self),
        ensures
            laid_down(&*old(writer), &*final(writer), pvd_layout(*self), r is Ok),
    {
        let ghost d0 = writer.bytes();
        let ghost p0 = writer.position() as int;
        let ghost a = pvd_layout_ids(*self);
        let ghost b = somes(pvd_numbers(*self));
        let ghost c = dir_record_layout(self.root_dir@);
        let ghost d = somes(pvd_strings(*self));
        let ghost e = pvd_layout_tail(*self);
        proof { reveal(pvd_layout); assert(pvd_layout(*self) == a + b + c + d + e); }
        self.write_ids(writer)?;
        self.write_numbers(writer)?;
        proof { lemma_overlay_concat(d0, p0, a, b); }
        self.root_dir.write(writer)?;
        proof { lemma_overlay_concat(d0, p0, a + b, c); }
        self.write_strings(writer)?;
        proof { lemma_overlay_concat(d0, p0, a + b + c, d); }
        self.write_tail(writer)?;
        proof { lemma_overlay_concat(d0, p0, a + b + c + d, e); }
        Ok(())
    }
}

impl Clone for PrimaryVolumeDesc {
    fn clone(&self) -> (r: PrimaryVolumeDesc)
        ensures
            r == *self,
    {
        let root_dir = self.root_dir.clone();
        PrimaryVolumeDesc {
            vd: self.vd.clone(),
            system_id: self.system_id.clone(),
            volume_id: self.volume_id.clone(),
            volume_space_size: self.volume_space_size,
            volume_set_size: self.volume_set_size,
            volume_sequence_number: self.volume_sequence_number,
            logical_block_size: self.logical_block_size,
            path_table_size: self.path_table_size,
            lpath_table_loc: self.lpath_table_loc,
            optional_lpath_table_loc: self.optional_lpath_table_loc,
            mpath_table_loc: self.mpath_table_loc,
            optional_mpath_table_loc: self.optional_mpath_table_loc,
            root_dir,
            volume_set_id: self.volume_set_id.clone(),
            publisher_id: self.publisher_id.clone(),
            data_prepare_id: self.data_prepare_id.clone(),
            application_id: self.application_id.clone(),
            copyright_file_id: self.copyright_file_id.clone(),
            abstract_file_id: self.abstract_file_id.clone(),
            bibliographic_file_id: self.bibliographic_file_id.clone(),
            file_structure_version: self.file_structure_version,
        }
    }
}

impl Default for PrimaryVolumeDesc {
    fn default() -> (r: PrimaryVolumeDesc)
        ensures
            r.vd.typ == 0 && r.vd.version == 0 && r.vd.id@ == Seq::<char>::empty(),
            r.logical_block_size == 0 && r.file_structure_version == 0,
            r.system_id@ == Seq::<char>::empty() && r.volume_id@ == Seq::<char>::empty(),
            r.volume_space_size == 0 && r.volume_set_size == 0 && r.volume_sequence_number == 0,
            r.path_table_size == 0 && r.lpath_table_loc == 0 && r.optional_lpath_table_loc == 0,
            r.mpath_table_loc == 0 && r.optional_mpath_table_loc == 0,
            r.root_dir@ == empty_record(),
            r.volume_set_id@ == Seq::<char>::empty() && r.publisher_id@ == Seq::<char>::empty(),
            r.data_prepare_id@ == Seq::<char>::empty() && r.application_id@ == Seq::<char>::empty(),
            r.copyright_file_id@ == Seq::<char>::empty() && r.abstract_file_id@ == Seq::<char>::empty(),
            r.bibliographic_file_id@ == Seq::<char>::empty(),
    {
        PrimaryVolumeDesc {
            vd: VolumeDesc { typ: 0, id: String::new(), version: 0 },
            system_id: String::new(),
            volume_id: String::new(),
            volume_space_size: 0,
            volume_set_size: 0,
            volume_sequence_number: 0,
            logical_block_size: 0,
            path_table_size: 0,
            lpath_table_loc: 0,
            optional_lpath_table_loc: 0,
            mpath_table_loc: 0,
            optional_mpath_table_loc: 0,
            root_dir: DirRecord::default(),
            volume_set_id: String::new(),
            publisher_id: String::new(),
            data_prepare_id: String::new(),
            application_id: String::new(),
            copyright_file_id: String::new(),
            abstract_file_id: String::new(),
            bibliographic_file_id: String::new(),
            file_structure_version: 0,
        }
    }
}

} // verus!
