pub mod binary_writer;
pub mod dir_record;
pub mod dir_record_factory;
pub mod image_laws;
pub mod iso_writer;
pub mod layout;
pub mod primary_volume_desc;
pub mod term_volume_desc;
pub mod volume_desc;

pub use binary_writer::{BinaryWriter, ByteCursor, WriteError, SECTOR_SIZE};
pub use dir_record::DirRecord;
pub use dir_record_factory::DirRecordFactory;
pub use iso_writer::IsoWriter;
pub use primary_volume_desc::PrimaryVolumeDesc;
pub use term_volume_desc::TermVolumeDesc;
pub use volume_desc::VolumeDesc;
