use vstd::prelude::*;
use vstd::string::{StringExecFns, StringSliceAdditionalSpecFns};
use vstd::utf8::encode_utf8;
use crate::iso9660::binary_writer::{cuts_at_char, lemma_fitting_text_cuts_at_char, padded_field, next_sector_start, BinaryWriter, ByteCursor, WriteError, SECTOR_SIZE};
use crate::iso9660::dir_record::{dir_record_layout, DirRecord};
use crate::iso9660::dir_record_factory::{record_for, record_len_fits, DirRecordFactory};
use crate::iso9660::layout::{
    laid_down, gap, lemma_overlay_concat, lemma_overlay_empty, lemma_step_gap, lemma_step_write, lemma_pad_layout,
    overlay, pad_layout, somes,
};
use crate::iso9660::primary_volume_desc::{pvd_layout, pvd_writable, PrimaryVolumeDesc};
use crate::iso9660::term_volume_desc::{term_volume_desc_layout, TermVolumeDesc};
use crate::iso9660::volume_desc::{volume_desc_bytes, VolumeDesc};

verus! {

/// Builds a single-directory ISO 9660 image, the format of a cloud-init
/// seed disk.
pub struct IsoWriter {
    pub pvd: PrimaryVolumeDesc,
    pub files: Vec<(String, Vec<u8>)>,
}

/// The files of an image, in the order they are laid out.
pub open spec fn files_view(files: Seq<(String, Vec<u8>)>) -> Seq<(Seq<char>, Seq<u8>)> {
    Seq::new(files.len(), |i: int| (files[i].0@, files[i].1@))
}

/// No two files share a name.
pub open spec fn names_unique(files: Seq<(Seq<char>, Seq<u8>)>) -> bool {
    forall|i: int, j: int| 0 <= i < files.len() && 0 <= j < files.len() && i != j ==> files[i].0 != files[j].0
}

/// The descriptor the image is written with: the one the writer holds, with
/// the volume size, the set and sequence numbers and the root directory
/// record filled in.
pub open spec fn image_pvd(p: PrimaryVolumeDesc) -> PrimaryVolumeDesc {
    PrimaryVolumeDesc {
        volume_space_size: 21,
        volume_set_size: 1,
        volume_sequence_number: 1,
        root_dir: DirRecord {
            len: 34,
            file_flags: 0x02,
            extend_loc: 18,
            data_len: SECTOR_SIZE as u32,
            volume_sequence_number: 1,
            ..p.root_dir
        },
        ..p
    }
}

/// The name a file is listed under: its name and version 1.
pub open spec fn listed_name(name: Seq<char>) -> Seq<char> {
    name + seq![';', '1']
}

/// The directory record of the `i`th file.
pub open spec fn file_entry(files: Seq<(Seq<char>, Seq<u8>)>, i: int) -> Seq<Option<u8>> {
    dir_record_layout(record_for(listed_name(files[i].0), (19 + i) as u32, files[i].1.len() as u32, 0))
}

/// The directory records of the first `n` files.
pub open spec fn file_entries(files: Seq<(Seq<char>, Seq<u8>)>, n: nat) -> Seq<Option<u8>>
    decreases n,
{
    if n == 0 {
        Seq::empty()
    } else {
        file_entries(files, (n - 1) as nat) + file_entry(files, n - 1)
    }
}

/// The data of the first `n` files from offset `start`, each padded to the
/// end of its sector.
pub open spec fn file_data(files: Seq<(Seq<char>, Seq<u8>)>, n: nat, start: int) -> Seq<Option<u8>>
    decreases n,
{
    if n == 0 {
        Seq::empty()
    } else {
        let before = file_data(files, (n - 1) as nat, start);
        let at = start + before.len() + files[n - 1].1.len();
        before + somes(files[n - 1].1) + pad_layout(at)
    }
}

/// The records of the directory itself and of its parent, both pointing at
/// the root directory sector.
pub open spec fn dot_entries() -> Seq<Option<u8>> {
    dir_record_layout(record_for(seq!['\0'], 18, SECTOR_SIZE as u32, 0x02))
        + dir_record_layout(record_for(seq!['\x01'], 18, SECTOR_SIZE as u32, 0x02))
}

/// What the primary volume descriptor and the terminator lay down from
/// `pos`.
#[verifier::opaque]
pub open spec fn descriptors_layout(p: PrimaryVolumeDesc, pos: int) -> Seq<Option<u8>> {
    pvd_layout(image_pvd(p)) + term_volume_desc_layout(term_header(), pos + pvd_layout(image_pvd(p)).len())
}

/// What the root directory sector lays down from `pos`: the records of the
/// directory and its parent, one record per file, and padding to the end of
/// the sector.
#[verifier::opaque]
pub open spec fn root_directory_layout(files: Seq<(Seq<char>, Seq<u8>)>, pos: int) -> Seq<Option<u8>> {
    dot_entries() + file_entries(files, files.len())
        + pad_layout(pos + dot_entries().len() + file_entries(files, files.len()).len())
}

/// The layout of the image up to the end of the directory sector.
#[verifier::opaque]
pub open spec fn image_head(p: PrimaryVolumeDesc, files: Seq<(Seq<char>, Seq<u8>)>) -> Seq<Option<u8>> {
    let boot = gap(16 * SECTOR_SIZE as nat);
    let descriptors = descriptors_layout(p, boot.len() as int);
    boot + descriptors + root_directory_layout(files, (boot + descriptors).len() as int)
}

/// The whole image: sixteen empty boot sectors, the primary volume
/// descriptor, the terminator, the directory sector and the file data.
#[verifier::opaque]
pub open spec fn image_layout(p: PrimaryVolumeDesc, files: Seq<(Seq<char>, Seq<u8>)>) -> Seq<Option<u8>> {
    let head = image_head(p, files);
    head + file_data(files, files.len(), head.len() as int)
}

/// The header of the terminator written into the image.
pub open spec fn term_header() -> Seq<u8> {
    seq![0xFFu8] + padded_field("CD001"@, 5) + seq![1u8]
}

/// Whether an image of these files can be built: every text field fits its
/// field, the sector numbers fit 32 bits and every listed name fits a
/// directory record.
pub open spec fn image_writable(p: PrimaryVolumeDesc, files: Seq<(Seq<char>, Seq<u8>)>) -> bool {
    &&& pvd_writable(image_pvd(p))
    &&& files.len() + 19 <= u32::MAX
    &&& forall|i: int| 0 <= i < files.len() ==> record_len_fits(#[trigger] encode_utf8(listed_name(files[i].0)).len())
}

impl IsoWriter {
    pub open spec fn files_seq(&self) -> Seq<(Seq<char>, Seq<u8>)> {
        files_view(self.files@)
    }

    /// A writer with a fresh primary volume descriptor and no files.
    pub fn new() -> (r: IsoWriter)
        ensures
            r.files_seq() == Seq::<(Seq<char>, Seq<u8>)>::empty(),
            names_unique(r.files_seq()),
            r.pvd.vd.typ == 1 && r.pvd.vd.version == 1 && r.pvd.logical_block_size == SECTOR_SIZE,
            pvd_writable(image_pvd(r.pvd)),
    {
        let r = IsoWriter { pvd: PrimaryVolumeDesc::new(), files: Vec::new() };
        assert(r.files_seq() =~= Seq::<(Seq<char>, Seq<u8>)>::empty());
        proof {
            lemma_standard_id_fits();
            assert(encode_utf8(Seq::<char>::empty()).len() == 0);
            lemma_fitting_text_cuts_at_char(Seq::<char>::empty(), 32);
            lemma_fitting_text_cuts_at_char(Seq::<char>::empty(), 128);
            lemma_fitting_text_cuts_at_char(Seq::<char>::empty(), 37);
        }
        r
    }

    /// Whether no two files share a name, as holds of every writer built by
    /// `new` and `insert_file`.
    pub fn has_unique_names(&self) -> (r: bool)
        ensures
            r == names_unique(self.files_seq()),
    {
        let n = self.files.len();
        let ghost files = self.files_seq();
        let mut i: usize = 0;
        while i < n
            invariant
                0 <= i <= n,
                n == files.len(),
                files == self.files_seq(),
                forall|a: int, b: int| 0 <= a < i && a < b < n ==> #[trigger] files[a].0 != #[trigger] files[b].0,
            decreases n - i,
        {
            let mut j: usize = i + 1;
            while j < n
                invariant
                    i < n,
                    i + 1 <= j <= n,
                    n == files.len(),
                    files == self.files_seq(),
                    forall|a: int, b: int| 0 <= a < i && a < b < n ==> #[trigger] files[a].0 != #[trigger] files[b].0,
                    forall|b: int| i < b < j ==> files[i as int].0 != #[trigger] files[b].0,
                decreases n - j,
            {
                assert(files[i as int].0 == self.files@[i as int].0@);
                assert(files[j as int].0 == self.files@[j as int].0@);
                if self.files[i].0 == self.files[j].0 {
                    assert(!names_unique(files));
                    return false;
                }
                j = j + 1;
            }
            i = i + 1;
        }
        assert forall|a: int, b: int| 0 <= a < files.len() && 0 <= b < files.len() && a != b implies files[a].0 != files[b].0 by {
            if a < b {
                assert(files[a].0 != files[b].0);
            } else {
                assert(files[b].0 != files[a].0);
            }
        }
        true
    }

    /// Whether every file gets a directory record: few enough files for
    /// their sectors to be numbered, and names short enough for a record.
    pub fn files_fit(&self) -> (r: bool)
        ensures
            r == (self.files_seq().len() + 19 <= u32::MAX
                && forall|i: int| 0 <= i < self.files_seq().len()
                    ==> record_len_fits(#[trigger] encode_utf8(listed_name(self.files_seq()[i].0)).len())),
    {
        let n = self.files.len();
        if n > 4294967276 {
            return false;
        }
        let mut i: usize = 0;
        while i < n
            invariant
                0 <= i <= n,
                n == self.files@.len(),
                forall|j: int| 0 <= j < i ==> record_len_fits(#[trigger] encode_utf8(listed_name(self.files_seq()[j].0)).len()),
            decreases n - i,
        {
            let mut listed = self.files[i].0.clone();
            listed.append(";1");
            proof {
                reveal_strlit(";1");
                assert(listed@ =~= listed_name(self.files_seq()[i as int].0));
            }
            let len = listed.as_str().as_bytes().len();
            let pad: usize = if len % 2 == 0 { 1 } else { 0 };
            if (len % 256) + 33 + pad > 255 {
                return false;
            }
            i = i + 1;
        }
        true
    }
}

/// A copy of a byte vector.
pub fn copy_bytes(v: &Vec<u8>) -> (r: Vec<u8>)
    ensures
        r@ == v@,
{
    let r = v.clone();
    assert(r@ =~= v@);
    r
}

/// The entries of `n` files lie in front of those of more files.
pub proof fn lemma_file_entries_prefix(files: Seq<(Seq<char>, Seq<u8>)>, i: nat, n: nat)
    requires
        i <= n,
    ensures
        file_entries(files, i).len() <= file_entries(files, n).len(),
    decreases n,
{
    if i < n {
        lemma_file_entries_prefix(files, i, (n - 1) as nat);
    }
}

/// The data of `n` files lies in front of that of more files.
pub proof fn lemma_file_data_prefix(files: Seq<(Seq<char>, Seq<u8>)>, i: nat, n: nat, start: int)
    requires
        i <= n,
    ensures
        file_data(files, i, start).len() <= file_data(files, n, start).len(),
    decreases n,
{
    if i < n {
        lemma_file_data_prefix(files, i, (n - 1) as nat, start);
    }
}

impl IsoWriter {
    /// Adds a file to the root directory, or replaces the content of the
    /// file of that name.
    pub fn insert_file(&mut self, name: String, content: Vec<u8>)
        ensures
            ({
                let before = old(self).files_seq();
                let after = final(self).files_seq();
                if exists|i: int| 0 <= i < before.len() && before[i].0 == name@ {
                    &&& after.len() == before.len()
                    &&& forall|i: int| 0 <= i < before.len() ==> #[trigger] after[i] == (
                        if before[i].0 == name@ { (name@, content@) } else { before[i] })
                } else {
                    after == before.push((name@, content@))
                }
            }),
            final(self).pvd == old(self).pvd,
            names_unique(old(self).files_seq()) ==> names_unique(final(self).files_seq()),
    {
        let ghost before = self.files_seq();
        let n = self.files.len();
        let mut files: Vec<(String, Vec<u8>)> = Vec::new();
        let mut found = false;
        let mut k: usize = 0;
        while k < n
            invariant
                self.files_seq() == before,
                n == before.len(),
                0 <= k <= n,
                files_view(files@).len() == k,
                found == exists|j: int| 0 <= j < k && before[j].0 == name@,
                forall|j: int| 0 <= j < k ==> #[trigger] files_view(files@)[j] == (
                    if before[j].0 == name@ { (name@, content@) } else { before[j] }),
            decreases n - k,
        {
            let ghost old_files = files@;
            if self.files[k].0 == name {
                files.push((name.clone(), copy_bytes(&content)));
                found = true;
            } else {
                files.push((self.files[k].0.clone(), copy_bytes(&self.files[k].1)));
            }
            proof {
                assert(files_view(files@).drop_last() =~= files_view(old_files));
                assert(before[k as int] == (self.files@[k as int].0@, self.files@[k as int].1@));
                assert(files_view(files@)[k as int] == (files@[k as int].0@, files@[k as int].1@));
                if before[k as int].0 == name@ {
                    assert(exists|j: int| 0 <= j < k + 1 && before[j].0 == name@);
                }
                assert forall|j: int| 0 <= j < k implies #[trigger] files_view(files@)[j] == files_view(old_files)[j] by {
                    assert(files_view(files@).drop_last()[j] == files_view(files@)[j]);
                }
            }
            k = k + 1;
        }
        if found {
            self.files = files;
        } else {
            self.files.push((name, content));
            assert(self.files_seq() =~= before.push((name@, content@)));
        }
    }
}

/// One more directory record behind those of the first `index` files.
proof fn lemma_entries_step(files: Seq<(Seq<char>, Seq<u8>)>, index: nat, n: nat, d0: Seq<u8>, p0: int)
    requires
        index < n,
        0 <= p0,
    ensures
        file_entries(files, index + 1) == file_entries(files, index) + file_entry(files, index as int),
        file_entries(files, index + 1).len() <= file_entries(files, n).len(),
        overlay(overlay(d0, p0, file_entries(files, index)), p0 + file_entries(files, index).len(), file_entry(files, index as int))
            == overlay(d0, p0, file_entries(files, index + 1)),
{
    lemma_file_entries_prefix(files, index + 1, n);
    lemma_overlay_concat(d0, p0, file_entries(files, index), file_entry(files, index as int));
}

impl IsoWriter {
    /// Writes the directory records of the files.
    fn write_file_entries(&self, writer: &mut BinaryWriter) -> (r: Result<(), WriteError>)
        requires
            image_writable(self.pvd, self.files_seq()),
        ensures
            laid_down(&*old(writer), &*final(writer), file_entries(self.files_seq(), self.files_seq().len()), r is Ok),
    {
        let ghost files = self.files_seq();
        let ghost d0 = writer.bytes();
        let ghost p0 = writer.position() as int;
        proof { lemma_overlay_empty(d0, p0); }
        let fac = DirRecordFactory::new();
        let n = self.files.len();
        let mut index: usize = 0;
        assert(files.len() + 19 <= u32::MAX);
        while index < n
            invariant
                n == files.len(),
                files == self.files_seq(),
                files.len() + 19 <= u32::MAX,
                forall|i: int| 0 <= i < files.len() ==> record_len_fits(#[trigger] encode_utf8(listed_name(files[i].0)).len()),
                d0 == old(writer).bytes(),
                p0 == old(writer).position(),
                0 <= index <= n,
                writer.bytes() == overlay(d0, p0, file_entries(files, index as nat)),
                writer.position() == p0 + file_entries(files, index as nat).len(),
            decreases n - index,
        {
            let mut name = self.files[index].0.clone();
            proof { reveal_strlit(";1"); }
            name.append(";1");
            assert(name@ == listed_name(files[index as int].0));
            assert(record_len_fits(encode_utf8(listed_name(files[index as int].0)).len()));
            let entry = fac.create_file(name.as_str(), 19 + index as u32, self.files[index].1.len() as u32);
            assert(entry@ == record_for(listed_name(files[index as int].0), (19 + index) as u32, files[index as int].1.len() as u32, 0));
            proof { lemma_entries_step(files, index as nat, n as nat, d0, p0); }
            let res = entry.write(writer);
            if res.is_err() {
                return res;
            }
            index = index + 1;
        }
        proof { writer.lemma_position_bounded(); }
        Ok(())
    }

    /// Writes the data of the files, each padded to the end of its sector.
    fn write_file_data(&self, writer: &mut BinaryWriter) -> (r: Result<(), WriteError>)
        ensures
            laid_down(&*old(writer), &*final(writer), file_data(self.files_seq(), self.files_seq().len(), old(writer).position() as int), r is Ok),
    {
        let ghost files = self.files_seq();
        let ghost d0 = writer.bytes();
        let ghost p0 = writer.position() as int;
        let ghost laid = Seq::<Option<u8>>::empty();
        proof { lemma_overlay_empty(d0, p0); }
        let n = self.files.len();
        let mut index: usize = 0;
        while index < n
            invariant
                n == files.len(),
                files == self.files_seq(),
                d0 == old(writer).bytes(),
                p0 == old(writer).position(),
                0 <= index <= n,
                laid == file_data(files, index as nat, p0),
                writer.bytes() == overlay(d0, p0, laid),
                writer.position() == p0 + laid.len(),
            decreases n - index,
        {
            proof { lemma_file_data_prefix(files, (index + 1) as nat, n as nat, p0); }
            let ghost content_view = files[index as int].1;
            let ghost at = p0 + laid.len() + content_view.len();
            let ghost g = (next_sector_start(at) - at - 1) as nat;
            proof { lemma_pad_layout(at); }
            assert(file_data(files, (index + 1) as nat, p0) == laid + somes(content_view) + pad_layout(at));
            let content = &self.files[index].1;
            assert(content@ == content_view);
            let res = writer.write_bytes(content.as_slice());
            if res.is_err() {
                return Err(WriteError::PositionOverflow);
            }
            proof {
                lemma_step_write(d0, p0, laid, content_view);
                laid = laid + somes(content_view);
            }
            let res = writer.pad_to_sector_end();
            if res.is_err() {
                return Err(WriteError::PositionOverflow);
            }
            proof {
                lemma_step_gap(d0, p0, laid, g);
                lemma_step_write(d0, p0, laid + gap(g), seq![0u8]);
                assert(laid + gap(g) + somes(seq![0u8]) =~= file_data(files, (index + 1) as nat, p0));
                laid = file_data(files, (index + 1) as nat, p0);
            }
            index = index + 1;
        }
        proof { writer.lemma_position_bounded(); }
        Ok(())
    }
}

/// The standard identifier fits its five byte field.
proof fn lemma_standard_id_fits()
    ensures
        encode_utf8("CD001"@).len() == 5,
        cuts_at_char("CD001"@, 5),
{
    reveal_strlit("CD001");
    reveal_with_fuel(encode_utf8, 6);
    lemma_fitting_text_cuts_at_char("CD001"@, 5);
}

/// The identifiers of the directory itself and of its parent are one byte
/// long.
proof fn lemma_dot_names_fit()
    ensures
        encode_utf8("\x00"@).len() == 1,
        encode_utf8("\x01"@).len() == 1,
        "\x00"@ == seq!['\0'],
        "\x01"@ == seq!['\x01'],
{
    reveal_strlit("\x00");
    reveal_strlit("\x01");
    reveal_with_fuel(encode_utf8, 2);
}

impl IsoWriter {
    /// Writes the primary volume descriptor the image is made with and the
    /// terminator behind it.
    fn write_volume_descriptors(&self, writer: &mut BinaryWriter) -> (r: Result<(), WriteError>)
        requires
            pvd_writable(image_pvd(self.pvd)),
        ensures
            laid_down(&*old(writer), &*final(writer), descriptors_layout(self.pvd, old(writer).position() as int), r is Ok),
    {
        let ghost d0 = writer.bytes();
        let ghost p0 = writer.position() as int;
        let ghost pb = pvd_layout(image_pvd(self.pvd));
        let ghost pc = term_volume_desc_layout(term_header(), p0 + pb.len());
        proof {
            reveal(descriptors_layout);
            lemma_overlay_empty(d0, p0);
            assert(Seq::<Option<u8>>::empty() + pb =~= pb);
        }
        let mut pvd = self.pvd.clone();
        pvd.volume_space_size = 21;
        pvd.volume_set_size = 1;
        pvd.volume_sequence_number = 1;
        pvd.root_dir.len = 34;
        pvd.root_dir.file_flags = 0x02;
        pvd.root_dir.extend_loc = 18;
        pvd.root_dir.data_len = SECTOR_SIZE as u32;
        pvd.root_dir.volume_sequence_number = 1;
        assert(pvd == image_pvd(self.pvd));
        pvd.write(writer)?;
        let term = TermVolumeDesc::new();
        proof {
            lemma_standard_id_fits();
            assert(volume_desc_bytes(term.vd) =~= term_header());
        }
        term.write(writer)?;
        proof { lemma_overlay_concat(d0, p0, pb, pc); }
        Ok(())
    }

    /// Writes the root directory sector: the records of the directory and
    /// of its parent, one record per file, and padding to the sector end.
    fn write_root_directory(&self, writer: &mut BinaryWriter) -> (r: Result<(), WriteError>)
        requires
            image_writable(self.pvd, self.files_seq()),
        ensures
            laid_down(&*old(writer), &*final(writer), root_directory_layout(self.files_seq(), old(writer).position() as int), r is Ok),
    {
        let ghost files = self.files_seq();
        let ghost d0 = writer.bytes();
        let ghost p0 = writer.position() as int;
        let ghost pe = file_entries(files, files.len());
        let ghost at = p0 + dot_entries().len() + pe.len();
        let ghost g = (next_sector_start(at) - at - 1) as nat;
        proof {
            reveal(root_directory_layout);
            lemma_overlay_empty(d0, p0);
            lemma_pad_layout(at);
            lemma_dot_names_fit();
        }
        let fac = DirRecordFactory::new();
        let dot = fac.create_dir("\x00", 18, SECTOR_SIZE as u32);
        let dotdot = fac.create_dir("\x01", 18, SECTOR_SIZE as u32);
        let ghost l1 = dir_record_layout(dot@);
        let ghost l2 = dir_record_layout(dotdot@);
        proof { assert(Seq::<Option<u8>>::empty() + l1 =~= l1); }
        dot.write(writer)?;
        dotdot.write(writer)?;
        proof {
            lemma_overlay_concat(d0, p0, l1, l2);
            assert(l1 + l2 =~= dot_entries());
        }
        self.write_file_entries(writer)?;
        proof { lemma_overlay_concat(d0, p0, dot_entries(), pe); }
        writer.pad_to_sector_end()?;
        proof {
            lemma_step_gap(d0, p0, dot_entries() + pe, g);
            lemma_step_write(d0, p0, dot_entries() + pe + gap(g), seq![0u8]);
            assert(dot_entries() + pe + gap(g) + somes(seq![0u8]) =~= dot_entries() + pe + pad_layout(at));
        }
        Ok(())
    }

    /// Builds the image: sectors 0 to 15 are left empty for a boot loader,
    /// sector 16 holds the primary volume descriptor, sector 17 the
    /// terminator, sector 18 the root directory and each file's data starts
    /// on a sector of its own from sector 19 on, in the order of `files`.
    /// It fails only when the image would be larger than a buffer can
    /// address.
    pub fn create_iso(&self) -> (r: Result<Vec<u8>, WriteError>)
        requires
            image_writable(self.pvd, self.files_seq()),
            names_unique(self.files_seq()),
        ensures
            (r is Ok) == (image_layout(self.pvd, self.files_seq()).len() <= usize::MAX),
            r matches Ok(bytes) ==> bytes@ == overlay(Seq::empty(), 0, image_layout(self.pvd, self.files_seq())),
    {
        let ghost files = self.files_seq();
        let ghost d0 = Seq::<u8>::empty();
        let ghost pa = gap(16 * SECTOR_SIZE as nat);
        let ghost pbc = descriptors_layout(self.pvd, pa.len() as int);
        let ghost pdef = root_directory_layout(files, (pa + pbc).len() as int);
        let ghost head = image_head(self.pvd, files);
        let ghost pg = file_data(files, files.len(), head.len() as int);
        proof {
            lemma_overlay_empty(d0, 0);
            assert(head == pa + pbc + pdef) by { reveal(image_head); }
            assert(image_layout(self.pvd, files) == head + pg) by { reveal(image_layout); }
            assert(image_layout(self.pvd, files).len() == pa.len() + pbc.len() + pdef.len() + pg.len());
        }
        let ghost total_len = pa.len() + pbc.len() + pdef.len() + pg.len();
        let mut writer = BinaryWriter::new(ByteCursor::new());
        if writer.skip(16u32 * SECTOR_SIZE as u32).is_err() {
            return Err(WriteError::PositionOverflow);
        }
        proof {
            lemma_step_gap(d0, 0, Seq::<Option<u8>>::empty(), 16 * SECTOR_SIZE as nat);
            assert(Seq::<Option<u8>>::empty() + pa =~= pa);
        }
        if self.write_volume_descriptors(&mut writer).is_err() {
            assert(total_len > usize::MAX);
            return Err(WriteError::PositionOverflow);
        }
        proof { lemma_overlay_concat(d0, 0, pa, pbc); }
        if self.write_root_directory(&mut writer).is_err() {
            assert(total_len > usize::MAX);
            return Err(WriteError::PositionOverflow);
        }
        proof { lemma_overlay_concat(d0, 0, pa + pbc, pdef); }
        if self.write_file_data(&mut writer).is_err() {
            assert(total_len > usize::MAX);
            return Err(WriteError::PositionOverflow);
        }
        proof {
            lemma_overlay_concat(d0, 0, head, pg);
            writer.lemma_position_bounded();
        }
        Ok(writer.into_inner().into_inner())
    }
}

} // verus!
