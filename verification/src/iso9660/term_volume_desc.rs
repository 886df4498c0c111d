use vstd::prelude::*;
use crate::iso9660::binary_writer::{next_sector_start, BinaryWriter, WriteError};
use crate::iso9660::layout::{
    gap, lemma_overlay_empty, lemma_pad_layout, lemma_step_gap, lemma_step_write, overlay,
    pad_layout, somes,
};
use crate::iso9660::volume_desc::{volume_desc_bytes, volume_desc_writable, VolumeDesc};

verus! {

/// The descriptor that ends the set of volume descriptors.
pub struct TermVolumeDesc {
    pub vd: VolumeDesc,
}

/// What a terminator with the header bytes `header` lays down from `pos`:
/// the header and the rest of the sector.
pub open spec fn term_volume_desc_layout(header: Seq<u8>, pos: int) -> Seq<Option<u8>> {
    somes(header) + pad_layout(pos + header.len())
}

impl TermVolumeDesc {
    /// A terminator: a header of type 255.
    pub fn new() -> (r: TermVolumeDesc)
        ensures
            r.vd.typ == 0xFF,
            r.vd.id@ == "CD001"@,
            r.vd.version == 1,
    {
        TermVolumeDesc { vd: VolumeDesc::new(0xFF) }
    }

    /// Writes the header and pads to the end of the sector.
    pub fn write(&self, writer: &mut BinaryWriter) -> (r: Result<(), WriteError>)
        requires
            volume_desc_writable(self.vd),
        ensures
            ({
                let p0 = old(writer).position() as int;
                let lay = term_volume_desc_layout(volume_desc_bytes(self.vd), p0);
                p0 + lay.len() <= usize::MAX ==> {
                    &&& r is Ok
                    &&& final(writer).bytes() == overlay(old(writer).bytes(), p0, lay)
                    &&& final(writer).position() == p0 + lay.len()
                }
            }),
            old(writer).position() + term_volume_desc_layout(volume_desc_bytes(self.vd), old(writer).position() as int).len() > usize::MAX ==> r is Err,
    {
        let ghost d0 = writer.bytes();
        let ghost p0 = writer.position() as int;
        let ghost vb = volume_desc_bytes(self.vd);
        proof {
            lemma_overlay_empty(d0, p0);
            lemma_pad_layout(p0 + vb.len());
        }
        self.vd.write(writer)?;
        proof {
            assert(Seq::<Option<u8>>::empty() + somes(vb) =~= somes(vb));
        }
        let ghost cur = p0 + vb.len();
        let ghost n = (next_sector_start(cur) - cur - 1) as nat;
        writer.pad_to_sector_end()?; // Unused
        proof {
            lemma_step_gap(d0, p0, somes(vb), n);
            lemma_step_write(d0, p0, somes(vb) + gap(n), seq![0u8]);
            assert(somes(vb) + gap(n) + somes(seq![0u8]) =~= term_volume_desc_layout(volume_desc_bytes(self.vd), p0));
        }
        Ok(())
    }
}

impl Default for TermVolumeDesc {
    fn default() -> (r: TermVolumeDesc)
        ensures
            r.vd.typ == 0 && r.vd.version == 0 && r.vd.id@ == Seq::<char>::empty(),
    {
        TermVolumeDesc { vd: VolumeDesc { typ: 0, id: String::new(), version: 0 } }
    }
}

} // verus!
