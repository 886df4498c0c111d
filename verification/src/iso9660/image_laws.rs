use vstd::prelude::*;
use vstd::utf8::encode_utf8;
use crate::iso9660::binary_writer::{
    lemma_u32_bytes_read_back, next_sector_start, padded_field, u32_from_le, u32_le_bytes, SECTOR_SIZE,
};
use crate::iso9660::iso_writer::{
    descriptors_layout, dot_entries, file_data, file_entries, file_entry, listed_name, image_head, image_layout, image_pvd,
    root_directory_layout, term_header, IsoWriter,
};
use crate::iso9660::dir_record::{dir_record_head, dir_record_layout, dir_record_tail};
use crate::iso9660::dir_record_factory::record_for;
use crate::iso9660::layout::{gap, lemma_written_len_bounds, overlay, pad_layout, somes};
use crate::iso9660::primary_volume_desc::{pvd_layout, PrimaryVolumeDesc};
use crate::iso9660::term_volume_desc::term_volume_desc_layout;

verus! {

/// From any offset inside sector `k`, the next sector start is sector `k + 1`.
pub proof fn lemma_next_sector_start_in(k: int, r: int)
    requires
        0 <= k,
        0 <= r < SECTOR_SIZE,
    ensures
        next_sector_start(k * SECTOR_SIZE + r) == (k + 1) * SECTOR_SIZE,
{
    assert((k * 2048 + r) % 2048 == r) by (nonlinear_arith)
        requires 0 <= k, 0 <= r < 2048;
}

/// The terminator header is seven bytes long.
proof fn lemma_term_header_len()
    ensures
        term_header().len() == 7,
{
    reveal_strlit("CD001");
    reveal_with_fuel(encode_utf8, 6);
    vstd::utf8::encode_utf8_decode_utf8("CD001"@);
    assert(encode_utf8("CD001"@).take(5) =~= encode_utf8("CD001"@));
    assert(padded_field("CD001"@, 5).len() == 5);
}

/// With every file shorter than a sector, the data of the first `k` files
/// laid from the start of sector `m` takes one sector per file, and file
/// `i` starts at the beginning of the `i`th of them.
pub proof fn lemma_file_data_one_sector_each(files: Seq<(Seq<char>, Seq<u8>)>, k: nat, m: nat)
    requires
        k <= files.len(),
        forall|i: int| 0 <= i < k ==> #[trigger] files[i].1.len() < SECTOR_SIZE,
    ensures
        file_data(files, k, m * SECTOR_SIZE).len() == k * SECTOR_SIZE,
        forall|i: int, j: int| 0 <= i < k && 0 <= j < files[i].1.len()
            ==> #[trigger] file_data(files, k, m * SECTOR_SIZE)[i * SECTOR_SIZE + j] == Some(files[i].1[j]),
    decreases k,
{
    if k > 0 {
        let km1 = (k - 1) as nat;
        lemma_file_data_one_sector_each(files, km1, m);
        let before = file_data(files, km1, m * SECTOR_SIZE);
        let content = files[km1 as int].1;
        let at = m * SECTOR_SIZE + before.len() + content.len();
        assert(at == (m + km1) * 2048 + content.len());
        lemma_next_sector_start_in((m + km1) as int, content.len() as int);
        let all = file_data(files, k, m * SECTOR_SIZE);
        assert(all == before + somes(content) + pad_layout(at));
        assert forall|i: int, j: int| 0 <= i < k && 0 <= j < files[i].1.len()
            implies #[trigger] all[i * SECTOR_SIZE + j] == Some(files[i].1[j]) by {
            if i < km1 {
                assert(i * 2048 + j < km1 * 2048) by (nonlinear_arith)
                    requires i < km1, 0 <= j < 2048;
                assert(all[i * 2048 + j] == before[i * 2048 + j]);
            } else {
                assert(all[i * 2048 + j] == somes(content)[j]);
            }
        }
    }
}

/// The head of an image (boot area, descriptors and directory) spans 19
/// sectors when the primary volume descriptor fills one sector and the
/// directory records fit in one.
pub proof fn lemma_image_head_len(p: PrimaryVolumeDesc, files: Seq<(Seq<char>, Seq<u8>)>)
    requires
        pvd_layout(image_pvd(p)).len() == SECTOR_SIZE,
        dot_entries().len() + file_entries(files, files.len()).len() < SECTOR_SIZE,
    ensures
        image_head(p, files).len() == 19 * SECTOR_SIZE,
{
    reveal(image_head);
    reveal(descriptors_layout);
    reveal(root_directory_layout);
    lemma_term_header_len();
    lemma_next_sector_start_in(17, 7);
    lemma_next_sector_start_in(18, (dot_entries().len() + file_entries(files, files.len()).len()) as int);
}

/// The bytes of an image as `create_iso` returns them.
pub open spec fn image_bytes(p: PrimaryVolumeDesc, files: Seq<(Seq<char>, Seq<u8>)>) -> Seq<u8> {
    overlay(Seq::empty(), 0, image_layout(p, files))
}

/// Reading an image at the sector a file's directory record names gives
/// back the file: when the primary volume descriptor fills its sector, the
/// directory records fit in sector 18 and every file is shorter than a
/// sector, byte `j` of file `i` lies at byte `j` of sector `19 + i`.
pub proof fn lemma_file_readable_at_its_sector(p: PrimaryVolumeDesc, files: Seq<(Seq<char>, Seq<u8>)>, i: int, j: int)
    requires
        pvd_layout(image_pvd(p)).len() == SECTOR_SIZE,
        dot_entries().len() + file_entries(files, files.len()).len() < SECTOR_SIZE,
        forall|k: int| 0 <= k < files.len() ==> #[trigger] files[k].1.len() < SECTOR_SIZE,
        0 <= i < files.len(),
        0 <= j < files[i].1.len(),
    ensures
        image_layout(p, files)[(19 + i) * SECTOR_SIZE + j] == Some(files[i].1[j]),
        image_bytes(p, files)[(19 + i) * SECTOR_SIZE + j] == files[i].1[j],
{
    reveal(image_layout);
    lemma_image_head_len(p, files);
    let head = image_head(p, files);
    let data = file_data(files, files.len(), head.len() as int);
    lemma_file_data_one_sector_each(files, files.len(), 19);
    assert(i * 2048 + j < files.len() * 2048) by (nonlinear_arith)
        requires i < files.len(), 0 <= j < 2048;
    let layout = image_layout(p, files);
    let at = (19 + i) * SECTOR_SIZE + j;
    assert(layout == head + data);
    assert(layout[at] == data[i * SECTOR_SIZE + j]);
    lemma_written_len_bounds(layout);
    reveal(overlay);
}

/// Where the directory record of the `i`th file starts in an image: in
/// sector 18, behind the records of the directory, of its parent and of the
/// files before it.
pub open spec fn file_record_start(files: Seq<(Seq<char>, Seq<u8>)>, i: int) -> int {
    18 * SECTOR_SIZE + dot_entries().len() + file_entries(files, i as nat).len()
}

/// The sector a directory record at `at` names: its little endian extent
/// location, bytes 2 to 5 of the record.
pub open spec fn record_extent(image: Seq<u8>, at: int) -> int {
    u32_from_le(image.subrange(at + 2, at + 6))
}

/// The data length a directory record at `at` names: its little endian
/// data length, bytes 10 to 13 of the record.
pub open spec fn record_data_len(image: Seq<u8>, at: int) -> int {
    u32_from_le(image.subrange(at + 10, at + 14))
}

/// Record `i` follows the records of the first `i` files.
proof fn lemma_file_entries_index(files: Seq<(Seq<char>, Seq<u8>)>, i: nat, n: nat, k: int)
    requires
        i < n,
        0 <= k < file_entry(files, i as int).len(),
    ensures
        file_entries(files, i).len() + file_entry(files, i as int).len() <= file_entries(files, n).len(),
        file_entries(files, n)[file_entries(files, i).len() + k] == file_entry(files, i as int)[k],
    decreases n,
{
    let nm1 = (n - 1) as nat;
    assert(file_entries(files, n) == file_entries(files, nm1) + file_entry(files, nm1 as int));
    if i < nm1 {
        lemma_file_entries_index(files, i, nm1, k);
    }
}

/// The record of file `i` holds the sector `19 + i` as its little endian
/// extent location at bytes 2 to 5 and the file's length at bytes 10 to 13.
proof fn lemma_file_entry_fields(files: Seq<(Seq<char>, Seq<u8>)>, i: int)
    ensures
        file_entry(files, i).len() >= 14,
        forall|k: int| 2 <= k < 6 ==> #[trigger] file_entry(files, i)[k] == Some(u32_le_bytes((19 + i) as u32)[k - 2]),
        forall|k: int| 10 <= k < 14 ==> #[trigger] file_entry(files, i)[k] == Some(u32_le_bytes(files[i].1.len() as u32)[k - 10]),
{
    reveal(dir_record_layout);
    let d = record_for(listed_name(files[i].0), (19 + i) as u32, files[i].1.len() as u32, 0);
    let h = dir_record_head(d);
    assert(h.len() == 18);
    assert(file_entry(files, i) == somes(h) + gap(7) + somes(dir_record_tail(d)));
    assert forall|k: int| 2 <= k < 6 implies #[trigger] file_entry(files, i)[k] == Some(u32_le_bytes((19 + i) as u32)[k - 2]) by {
        assert(h[k] == u32_le_bytes((19 + i) as u32)[k - 2]);
    }
    assert forall|k: int| 10 <= k < 14 implies #[trigger] file_entry(files, i)[k] == Some(u32_le_bytes(files[i].1.len() as u32)[k - 10]) by {
        assert(h[k] == u32_le_bytes(files[i].1.len() as u32)[k - 10]);
    }
}

/// Every directory record takes at least one byte.
proof fn lemma_file_entries_len(files: Seq<(Seq<char>, Seq<u8>)>, n: nat)
    ensures
        file_entries(files, n).len() >= n,
    decreases n,
{
    if n > 0 {
        lemma_file_entries_len(files, (n - 1) as nat);
        lemma_file_entry_fields(files, n - 1);
    }
}

/// A written byte of the layout is the byte of the image.
proof fn lemma_image_byte(p: PrimaryVolumeDesc, files: Seq<(Seq<char>, Seq<u8>)>, x: int)
    requires
        0 <= x < image_layout(p, files).len(),
        image_layout(p, files)[x] is Some,
    ensures
        image_bytes(p, files)[x] == image_layout(p, files)[x]->0,
        x < image_bytes(p, files).len(),
{
    lemma_written_len_bounds(image_layout(p, files));
    reveal(overlay);
}

/// The byte `k` of the record of file `i` lies at `file_record_start + k`
/// of the layout.
proof fn lemma_record_byte(p: PrimaryVolumeDesc, files: Seq<(Seq<char>, Seq<u8>)>, i: int, k: int)
    requires
        pvd_layout(image_pvd(p)).len() == SECTOR_SIZE,
        dot_entries().len() + file_entries(files, files.len()).len() < SECTOR_SIZE,
        0 <= i < files.len(),
        0 <= k < file_entry(files, i).len(),
    ensures
        file_record_start(files, i) + k < image_layout(p, files).len(),
        image_layout(p, files)[file_record_start(files, i) + k] == file_entry(files, i)[k],
{
    reveal(image_layout);
    reveal(image_head);
    reveal(descriptors_layout);
    reveal(root_directory_layout);
    lemma_term_header_len();
    lemma_next_sector_start_in(17, 7);
    let n = files.len();
    lemma_file_entries_index(files, i as nat, n, k);
    let boot = gap(16 * SECTOR_SIZE as nat);
    let desc = descriptors_layout(p, boot.len() as int);
    let front = boot + desc;
    assert(front.len() == 18 * SECTOR_SIZE);
    let root = root_directory_layout(files, front.len() as int);
    let head = image_head(p, files);
    assert(head == front + root);
    let fe = file_entries(files, n);
    let off = dot_entries().len() + file_entries(files, i as nat).len() + k;
    assert(root == dot_entries() + fe + pad_layout((front.len() + dot_entries().len() + fe.len()) as int));
    assert(root[off] == fe[file_entries(files, i as nat).len() + k]);
    let layout = image_layout(p, files);
    assert(layout == head + file_data(files, n, head.len() as int));
    assert(layout[front.len() + off] == head[front.len() + off]);
}

/// The directory leads to each file: the record of file `i` names sector
/// `19 + i` and the file's length, and reading the image from the sector
/// the record names gives back the file's bytes. This holds when the
/// primary volume descriptor fills its sector, the directory records fit in
/// sector 18 and every file is shorter than a sector.
pub proof fn lemma_directory_leads_to_files(p: PrimaryVolumeDesc, files: Seq<(Seq<char>, Seq<u8>)>, i: int)
    requires
        pvd_layout(image_pvd(p)).len() == SECTOR_SIZE,
        dot_entries().len() + file_entries(files, files.len()).len() < SECTOR_SIZE,
        forall|k: int| 0 <= k < files.len() ==> #[trigger] files[k].1.len() < SECTOR_SIZE,
        0 <= i < files.len(),
    ensures
        record_extent(image_bytes(p, files), file_record_start(files, i)) == 19 + i,
        record_data_len(image_bytes(p, files), file_record_start(files, i)) == files[i].1.len(),
        forall|j: int| 0 <= j < files[i].1.len() ==> #[trigger] image_bytes(p, files)[
            record_extent(image_bytes(p, files), file_record_start(files, i)) * SECTOR_SIZE + j] == files[i].1[j],
{
    lemma_file_entries_len(files, files.len());
    let image = image_bytes(p, files);
    let layout = image_layout(p, files);
    let at = file_record_start(files, i);
    let sector = (19 + i) as u32;
    let size = files[i].1.len() as u32;
    let entry = file_entry(files, i);
    lemma_file_entry_fields(files, i);
    assert forall|k: int| 2 <= k < 6 implies #[trigger] image[at + k] == u32_le_bytes(sector)[k - 2] by {
        lemma_record_byte(p, files, i, k);
        lemma_image_byte(p, files, at + k);
    }
    assert forall|k: int| 10 <= k < 14 implies #[trigger] image[at + k] == u32_le_bytes(size)[k - 10] by {
        lemma_record_byte(p, files, i, k);
        lemma_image_byte(p, files, at + k);
    }
    lemma_record_byte(p, files, i, 13);
    lemma_image_byte(p, files, at + 13);
    assert forall|m: int| 0 <= m < 4 implies #[trigger] image.subrange(at + 2, at + 6)[m] == u32_le_bytes(sector)[m] by {
        assert(image[at + (m + 2)] == u32_le_bytes(sector)[m + 2 - 2]);
    }
    assert forall|m: int| 0 <= m < 4 implies #[trigger] image.subrange(at + 10, at + 14)[m] == u32_le_bytes(size)[m] by {
        assert(image[at + (m + 10)] == u32_le_bytes(size)[m + 10 - 10]);
    }
    assert(image.subrange(at + 2, at + 6) =~= u32_le_bytes(sector));
    assert(image.subrange(at + 10, at + 14) =~= u32_le_bytes(size));
    lemma_u32_bytes_read_back(sector);
    lemma_u32_bytes_read_back(size);
    assert forall|j: int| 0 <= j < files[i].1.len() implies #[trigger] image[(19 + i) * SECTOR_SIZE + j] == files[i].1[j] by {
        lemma_file_readable_at_its_sector(p, files, i, j);
    }
}

} // verus!
