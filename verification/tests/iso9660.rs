use cubic::iso9660::{BinaryWriter, ByteCursor, DirRecord, DirRecordFactory, IsoWriter, PrimaryVolumeDesc, TermVolumeDesc, VolumeDesc, SECTOR_SIZE};

fn new_writer() -> BinaryWriter {
    BinaryWriter::new(ByteCursor::new())
}

#[test]
fn test_write_one_byte() {
    let mut writer = new_writer();
    assert_eq!(writer.write_byte(1).unwrap(), 1);
    assert_eq!(writer.get_writer().get_ref(), &[1]);
}

#[test]
fn test_write_two_bytes() {
    let mut writer = new_writer();
    assert_eq!(writer.write_byte(1).unwrap(), 1);
    assert_eq!(writer.write_byte(2).unwrap(), 2);
    assert_eq!(writer.get_writer().get_ref(), &[1, 2]);
}

#[test]
fn test_write_empty_chunk() {
    let mut writer = new_writer();
    assert_eq!(writer.write_bytes(&[]).unwrap(), 0);
    assert_eq!(writer.get_writer().get_ref(), &[0u8; 0]);
}

#[test]
fn test_write_one_chunk() {
    let mut writer = new_writer();
    assert_eq!(writer.write_bytes(&[1, 2, 3, 4, 5]).unwrap(), 5);
    assert_eq!(writer.get_writer().get_ref(), &[1, 2, 3, 4, 5]);
}

#[test]
fn test_write_two_chunks() {
    let mut writer = new_writer();
    assert_eq!(writer.write_bytes(&[1, 2, 3, 4, 5]).unwrap(), 5);
    assert_eq!(writer.write_bytes(&[5, 4, 3, 2, 1]).unwrap(), 10);
    assert_eq!(writer.get_writer().get_ref(), &[1, 2, 3, 4, 5, 5, 4, 3, 2, 1]);
}

#[test]
fn test_write_empty_padded_string() {
    let mut writer = new_writer();
    assert_eq!(writer.write_padded_string("", 0).unwrap(), 0);
    assert_eq!(writer.get_writer().get_ref(), &[0u8; 0]);
}

#[test]
fn test_write_one_padded_string() {
    let mut writer = new_writer();
    assert_eq!(writer.write_padded_string("foo", 3).unwrap(), 3);
    assert_eq!(writer.get_writer().get_ref(), &[102, 111, 111]);
}

#[test]
fn test_write_two_padded_strings() {
    let mut writer = new_writer();
    assert_eq!(writer.write_padded_string("foo", 3).unwrap(), 3);
    assert_eq!(writer.write_padded_string("bar", 3).unwrap(), 6);
    assert_eq!(writer.get_writer().get_ref(), &[102, 111, 111, 98, 97, 114]);
}

#[test]
fn test_write_three_letters_padded_to_ten() {
    let mut writer = new_writer();
    assert_eq!(writer.write_padded_string("foo", 10).unwrap(), 10);
    assert_eq!(writer.get_writer().get_ref(), &[102, 111, 111, 32, 32, 32, 32, 32, 32, 32]);
}

#[test]
fn test_write_six_letters_padded_to_three() {
    let mut writer = new_writer();
    assert_eq!(writer.write_padded_string("foobar", 3).unwrap(), 3);
    assert_eq!(writer.get_writer().get_ref(), &[102, 111, 111]);
}

#[test]
fn test_write_u32_le() {
    let mut writer = new_writer();
    assert_eq!(writer.write_u32_le(0x12345678).unwrap(), 4);
    assert_eq!(writer.get_writer().get_ref(), &[0x78, 0x56, 0x34, 0x12]);
}

#[test]
fn test_write_u32_be() {
    let mut writer = new_writer();
    assert_eq!(writer.write_u32_be(0x12345678).unwrap(), 4);
    assert_eq!(writer.get_writer().get_ref(), &[0x12, 0x34, 0x56, 0x78]);
}

#[test]
fn test_write_u32_le_be() {
    let mut writer = new_writer();
    assert_eq!(writer.write_u32_le_be(0x12345678).unwrap(), 8);
    assert_eq!(writer.get_writer().get_ref(), &[0x78, 0x56, 0x34, 0x12, 0x12, 0x34, 0x56, 0x78]);
}

#[test]
fn test_write_u16_le_be() {
    let mut writer = new_writer();
    assert_eq!(writer.write_u16_le_be(0x1234).unwrap(), 4);
    assert_eq!(writer.get_writer().get_ref(), &[0x34, 0x12, 0x12, 0x34]);
}

#[test]
fn test_skip() {
    let mut writer = new_writer();
    assert_eq!(writer.skip(1).unwrap(), 1);
    assert_eq!(writer.skip(1).unwrap(), 2);
    assert_eq!(writer.skip(0).unwrap(), 2);
    assert_eq!(writer.skip(500).unwrap(), 502);
}

#[test]
fn test_write_one_byte_and_pad_sector() {
    let mut writer = new_writer();
    assert_eq!(writer.write_byte(1).unwrap(), 1);
    assert_eq!(writer.pad_to_sector_end().unwrap(), 2048);
}

#[test]
fn test_skip_3000_bytes_and_pad_sector() {
    let mut writer = new_writer();
    assert_eq!(writer.skip(3000).unwrap(), 3000);
    assert_eq!(writer.pad_to_sector_end().unwrap(), 4096);
}

#[test]
fn test_write_dir_record() {
    let writer = &mut new_writer();
    let mut dir = DirRecord::default();
    dir.len = 34;
    dir.extend_attr_len = 1;
    dir.extend_loc = 0xABCDEF01;
    dir.data_len = 0x98765432;
    dir.file_flags = 0x12;
    dir.file_unit_size = 0x23;
    dir.interleave_gap_size = 0xAB;
    dir.volume_sequence_number = 0xFEDC;
    dir.file_id_len = 6;
    dir.file_id = "foobar".to_string();
    dir.write(writer).unwrap();

    let result = writer.get_writer().get_ref();
    assert_eq!(result[0], 34);
    assert_eq!(result[1], 1);
    assert_eq!(&result[2..6], &[0x01, 0xEF, 0xCD, 0xAB]);
    assert_eq!(&result[6..10], &[0xAB, 0xCD, 0xEF, 0x01]);
    assert_eq!(&result[10..14], &[0x32, 0x54, 0x76, 0x98]);
    assert_eq!(&result[14..18], &[0x98, 0x76, 0x54, 0x32]);
    assert_eq!(&result[18..25], &[0, 0, 0, 0, 0, 0, 0]);
    assert_eq!(result[25], 0x12);
    assert_eq!(result[26], 0x23);
    assert_eq!(result[27], 0xAB);
    assert_eq!(&result[28..30], &[0xDC, 0xFE]);
    assert_eq!(&result[30..32], &[0xFE, 0xDC]);
    assert_eq!(result[32], 6);
    assert_eq!(&result[33..39], &[102, 111, 111, 98, 97, 114]);
    assert_eq!(result[39], 0);
}

#[test]
fn test_create_dir() {
    let dir = DirRecordFactory::new().create_dir("testdir", 20, 1024);
    assert_eq!(dir.len, 40);
    assert_eq!(dir.extend_attr_len, 0);
    assert_eq!(dir.extend_loc, 20);
    assert_eq!(dir.data_len, 1024);
    assert_eq!(dir.file_flags, 0x02);
    assert_eq!(dir.file_unit_size, 0);
    assert_eq!(dir.interleave_gap_size, 0);
    assert_eq!(dir.volume_sequence_number, 1);
    assert_eq!(dir.file_id_len, 7);
    assert_eq!(dir.file_id, "testdir");
}

#[test]
fn test_create_file() {
    let dir = DirRecordFactory::new().create_file("testfile", 21, 500);
    assert_eq!(dir.len, 42);
    assert_eq!(dir.extend_attr_len, 0);
    assert_eq!(dir.extend_loc, 21);
    assert_eq!(dir.data_len, 500);
    assert_eq!(dir.file_flags, 0);
    assert_eq!(dir.file_unit_size, 0);
    assert_eq!(dir.interleave_gap_size, 0);
    assert_eq!(dir.volume_sequence_number, 1);
    assert_eq!(dir.file_id_len, 8);
    assert_eq!(dir.file_id, "testfile");
}

#[test]
fn primary_volume_desc_test_write() {
    let mut pvd = PrimaryVolumeDesc::default();
    pvd.vd = VolumeDesc::new(0x01);
    pvd.system_id = "system id".to_string();
    pvd.volume_id = "volume id".to_string();
    pvd.volume_space_size = 0x12345678;
    pvd.volume_set_size = 0x2345;
    pvd.volume_sequence_number = 0x3456;
    pvd.logical_block_size = 0x4567;
    pvd.path_table_size = 0x56789ABC;
    pvd.lpath_table_loc = 0x6789ABCD;
    pvd.optional_lpath_table_loc = 0x789ABCDE;
    pvd.mpath_table_loc = 0x89ABCDEF;
    pvd.optional_mpath_table_loc = 0x9ABCDEF0;
    pvd.root_dir = DirRecord::default();
    pvd.volume_set_id = "volume set id".to_string();
    pvd.publisher_id = "publisher id".to_string();
    pvd.data_prepare_id = "data prepare id".to_string();
    pvd.application_id = "application id".to_string();
    pvd.copyright_file_id = "copyright file id".to_string();
    pvd.abstract_file_id = "abstract file id".to_string();
    pvd.bibliographic_file_id = "bibliographic file id".to_string();
    pvd.file_structure_version = 0xAB;

    let writer = &mut new_writer();
    pvd.write(writer).unwrap();

    let result = writer.get_writer().get_ref();
    assert_eq!(result[0], 1);
    assert_eq!(&result[1..6], "CD001".as_bytes());
    assert_eq!(result[6], 1);
    assert_eq!(result[7], 0);
    assert_eq!(&result[8..40], "system id                       ".as_bytes());
    assert_eq!(&result[40..72], "volume id                       ".as_bytes());
    assert_eq!(&result[72..80], &[0u8; 8]);
    assert_eq!(&result[80..84], &[0x78, 0x56, 0x34, 0x12]);
    assert_eq!(&result[84..88], &[0x12, 0x34, 0x56, 0x78]);
    assert_eq!(&result[88..120], &[0u8; 32]);
    assert_eq!(&result[120..122], &[0x45, 0x23]);
    assert_eq!(&result[122..124], &[0x23, 0x45]);
    assert_eq!(&result[124..126], &[0x56, 0x34]);
    assert_eq!(&result[126..128], &[0x34, 0x56]);
    assert_eq!(&result[128..130], &[0x67, 0x45]);
    assert_eq!(&result[130..132], &[0x45, 0x67]);
    assert_eq!(&result[132..136], &[0xBC, 0x9A, 0x78, 0x56]);
    assert_eq!(&result[136..140], &[0x56, 0x78, 0x9A, 0xBC]);
    assert_eq!(&result[140..144], &[0xCD, 0xAB, 0x89, 0x67]);
    assert_eq!(&result[144..148], &[0xDE, 0xBC, 0x9A, 0x78]);
    assert_eq!(&result[148..152], &[0x89, 0xAB, 0xCD, 0xEF]);
    assert_eq!(&result[152..156], &[0x9A, 0xBC, 0xDE, 0xF0]);
    assert_eq!(&result[190..318], "volume set id                                                                                                                   ".as_bytes());
    assert_eq!(&result[318..446], "publisher id                                                                                                                    ".as_bytes());
    assert_eq!(&result[446..574], "data prepare id                                                                                                                 ".as_bytes());
    assert_eq!(&result[574..702], "application id                                                                                                                  ".as_bytes());
    assert_eq!(&result[702..739], "copyright file id                    ".as_bytes());
    assert_eq!(&result[739..776], "abstract file id                     ".as_bytes());
    assert_eq!(&result[776..813], "bibliographic file id                ".as_bytes());
    assert_eq!(&result[813..830], &[0u8; 17]);
    assert_eq!(&result[830..847], &[0u8; 17]);
    assert_eq!(&result[847..864], &[0u8; 17]);
    assert_eq!(&result[864..881], &[0u8; 17]);
    assert_eq!(result[881], 0xAB);
    assert_eq!(result[882], 0);
    assert_eq!(&result[883..1395], &[0u8; 512]);
    assert_eq!(&result[1395..2048], &[0u8; 653]);
}

#[test]
fn term_volume_desc_test_write() {
    let writer = &mut new_writer();
    TermVolumeDesc::new().write(writer).unwrap();

    let result = writer.get_writer().get_ref();
    assert_eq!(result[0], 255);
    assert_eq!(&result[1..6], "CD001".as_bytes());
    assert_eq!(result[6], 1);
    assert_eq!(&result[7..2048], &[0u8; 2041]);
}

#[test]
fn test_volume_desc_write() {
    let writer = &mut new_writer();
    VolumeDesc::new(2).write(writer).unwrap();

    let result = writer.get_writer().get_ref();
    assert_eq!(result[0], 2);
    assert_eq!(&result[1..6], &[67, 68, 48, 48, 49]);
    assert_eq!(result[6], 1);
}

#[test]
fn iso_image_holds_each_file_at_its_sector() {
    let mut iso = IsoWriter::new();
    iso.insert_file("meta-data".to_string(), b"instance-id: test\n".to_vec());
    iso.insert_file("user-data".to_string(), b"#cloud-config\n".to_vec());
    let image = iso.create_iso().unwrap();

    assert_eq!(image.len(), 21 * SECTOR_SIZE);
    assert_eq!(image[16 * SECTOR_SIZE], 1);
    assert_eq!(&image[16 * SECTOR_SIZE + 1..16 * SECTOR_SIZE + 6], b"CD001");
    assert_eq!(image[17 * SECTOR_SIZE], 255);
    assert_eq!(&image[19 * SECTOR_SIZE..19 * SECTOR_SIZE + 18], b"instance-id: test\n");
    assert_eq!(&image[20 * SECTOR_SIZE..20 * SECTOR_SIZE + 14], b"#cloud-config\n");
    // The directory sector lists the directory, its parent, then the files.
    assert_eq!(image[18 * SECTOR_SIZE], 34);
    assert_eq!(image[18 * SECTOR_SIZE + 34], 34);
    assert_eq!(&image[18 * SECTOR_SIZE + 68 + 33..18 * SECTOR_SIZE + 68 + 44], b"meta-data;1");
}

#[test]
fn iso_insert_file_replaces_content_of_same_name() {
    let mut iso = IsoWriter::new();
    iso.insert_file("a".to_string(), b"1".to_vec());
    iso.insert_file("b".to_string(), b"2".to_vec());
    iso.insert_file("a".to_string(), b"3".to_vec());
    assert_eq!(iso.files.len(), 2);
    assert_eq!(iso.files[0], ("a".to_string(), b"3".to_vec()));
    assert_eq!(iso.files[1], ("b".to_string(), b"2".to_vec()));
}

#[test]
fn pad_at_sector_start_pads_a_whole_sector() {
    let mut writer = new_writer();
    assert_eq!(writer.pad_to_sector_end().unwrap(), 2048);
    assert_eq!(writer.pad_to_sector_end().unwrap(), 4096);
    assert_eq!(writer.get_writer().get_ref().len(), 4096);
}

#[test]
fn iso_names_stay_unique_through_insert() {
    let mut iso = IsoWriter::new();
    assert!(iso.has_unique_names());
    iso.insert_file("a".to_string(), b"1".to_vec());
    iso.insert_file("a".to_string(), b"2".to_vec());
    assert!(iso.has_unique_names());
    iso.files.push(("a".to_string(), b"3".to_vec()));
    assert!(!iso.has_unique_names());
}
