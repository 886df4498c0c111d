use vstd::prelude::*;
use crate::iso9660::binary_writer::{padded_field, cuts_at_char, BinaryWriter, WriteError};
use crate::iso9660::layout::{somes, overlay, lemma_step_write, lemma_overlay_empty};

verus! {

/// The header every volume descriptor starts with: its type, the standard
/// identifier and the descriptor version.
pub struct VolumeDesc {
    pub typ: u8,
    pub id: String,
    pub version: u8,
}

/// The bytes of a volume descriptor header.
pub open spec fn volume_desc_bytes(vd: VolumeDesc) -> Seq<u8> {
    seq![vd.typ] + padded_field(vd.id@, 5) + seq![vd.version]
}

/// Whether the identifier of a header can be cut into its five byte field.
pub open spec fn volume_desc_writable(vd: VolumeDesc) -> bool {
    cuts_at_char(vd.id@, 5)
}

impl Clone for VolumeDesc {
    fn clone(&self) -> (r: VolumeDesc)
        ensures
            r == *self,
    {
        VolumeDesc { typ: self.typ, id: self.id.clone(), version: self.version }
    }
}

impl VolumeDesc {
    /// A header of the given type with the standard identifier "CD001" and
    /// version 1.
    pub fn new(typ: u8) -> (r: VolumeDesc)
        ensures
            r.typ == typ,
            r.id@ == "CD001"@,
            r.version == 1,
    {
        VolumeDesc { typ, id: "CD001".to_string(), version: 1 }
    }

    /// Writes the header: type, identifier padded to five bytes, version.
    pub fn write(&self, writer: &mut BinaryWriter) -> (r: Result<u64, WriteError>)
        requires
            volume_desc_writable(*self),
        ensures
            old(writer).position() + volume_desc_bytes(*self).len() <= usize::MAX ==> {
                &&& final(writer).bytes() == overlay(old(writer).bytes(), old(writer).position() as int, somes(volume_desc_bytes(*self)))
                &&& final(writer).position() == old(writer).position() + volume_desc_bytes(*self).len()
                &&& r == Ok::<u64, WriteError>(final(writer).position() as u64)
            },
            old(writer).position() + volume_desc_bytes(*self).len() > usize::MAX ==> r is Err,
    {
        let ghost d0 = writer.bytes();
        let ghost p0 = writer.position() as int;
        proof {
            lemma_overlay_empty(d0, p0);
        }
        let ghost laid = Seq::<Option<u8>>::empty();
        writer.write_byte(self.typ)?;
        proof {
            lemma_step_write(d0, p0, laid, seq![self.typ]);
            laid = laid + somes(seq![self.typ]);
        }
        writer.write_padded_string(&self.id, 5)?;
        proof {
            lemma_step_write(d0, p0, laid, padded_field(self.id@, 5));
            laid = laid + somes(padded_field(self.id@, 5));
        }
        let r = writer.write_byte(self.version);
        proof {
            lemma_step_write(d0, p0, laid, seq![self.version]);
            laid = laid + somes(seq![self.version]);
            assert(laid =~= somes(volume_desc_bytes(*self)));
        }
        r
    }
}

} // verus!
