use vstd::prelude::*;
use vstd::slice::slice_to_vec;
use vstd::string::{StrSliceExecFns, StringSliceAdditionalSpecFns};
use vstd::utf8::{decode_utf8, encode_utf8, is_char_boundary};

verus! {

/// The size of one logical sector of an ISO 9660 image.
pub const SECTOR_SIZE: usize = 2048;

/// Why a write or a seek could not be carried out.
#[derive(Debug, Clone, Copy, PartialEq, Eq)]
pub enum WriteError {
    /// The position would pass the largest offset the buffer can address.
    PositionOverflow,
}

/// The bytes of `data` after `bytes` were written at offset `pos`. A write
/// past the end first fills the gap with zero bytes, as a file does after a
/// seek past its end; writing nothing changes nothing.
#[verifier::opaque]
pub open spec fn write_at(data: Seq<u8>, pos: int, bytes: Seq<u8>) -> Seq<u8> {
    let end = pos + bytes.len();
    let len = if bytes.len() > 0 && end > data.len() { end } else { data.len() as int };
    Seq::new(
        len as nat,
        |i: int|
            if pos <= i < end {
                bytes[i - pos]
            } else if i < data.len() {
                data[i]
            } else {
                0u8
            },
    )
}

/// Little endian encoding of a 32 bit value.
pub open spec fn u32_le_bytes(v: u32) -> Seq<u8> {
    seq![(v & 0xff) as u8, ((v >> 8) & 0xff) as u8, ((v >> 16) & 0xff) as u8, ((v >> 24) & 0xff) as u8]
}

/// Big endian encoding of a 32 bit value.
pub open spec fn u32_be_bytes(v: u32) -> Seq<u8> {
    seq![((v >> 24) & 0xff) as u8, ((v >> 16) & 0xff) as u8, ((v >> 8) & 0xff) as u8, (v & 0xff) as u8]
}

/// Little endian encoding of a 16 bit value.
pub open spec fn u16_le_bytes(v: u16) -> Seq<u8> {
    seq![(v & 0xff) as u8, ((v >> 8) & 0xff) as u8]
}

/// Big endian encoding of a 16 bit value.
pub open spec fn u16_be_bytes(v: u16) -> Seq<u8> {
    seq![((v >> 8) & 0xff) as u8, (v & 0xff) as u8]
}

/// The value that four bytes read as in little endian order.
pub open spec fn u32_from_le(b: Seq<u8>) -> int {
    b[0] + b[1] * 0x100 + b[2] * 0x1_0000 + b[3] * 0x100_0000
}

/// The value that four bytes read as in big endian order.
pub open spec fn u32_from_be(b: Seq<u8>) -> int {
    b[3] + b[2] * 0x100 + b[1] * 0x1_0000 + b[0] * 0x100_0000
}

/// The value that two bytes read as in little endian order.
pub open spec fn u16_from_le(b: Seq<u8>) -> int {
    b[0] + b[1] * 0x100
}

/// The value that two bytes read as in big endian order.
pub open spec fn u16_from_be(b: Seq<u8>) -> int {
    b[1] + b[0] * 0x100
}

/// Reading back the bytes a 32 bit value was written as gives the value, in
/// either byte order.
pub proof fn lemma_u32_bytes_read_back(v: u32)
    ensures
        u32_from_le(u32_le_bytes(v)) == v,
        u32_from_be(u32_be_bytes(v)) == v,
{
    let b0 = (v & 0xff) as u8;
    let b1 = ((v >> 8) & 0xff) as u8;
    let b2 = ((v >> 16) & 0xff) as u8;
    let b3 = ((v >> 24) & 0xff) as u8;
    assert(b0 + b1 * 0x100 + b2 * 0x1_0000 + b3 * 0x100_0000 == v) by (bit_vector)
        requires
            b0 == (v & 0xff) as u8,
            b1 == ((v >> 8) & 0xff) as u8,
            b2 == ((v >> 16) & 0xff) as u8,
            b3 == ((v >> 24) & 0xff) as u8;
}

/// Reading back the bytes a 16 bit value was written as gives the value, in
/// either byte order.
pub proof fn lemma_u16_bytes_read_back(v: u16)
    ensures
        u16_from_le(u16_le_bytes(v)) == v,
        u16_from_be(u16_be_bytes(v)) == v,
{
    let b0 = (v & 0xff) as u8;
    let b1 = ((v >> 8) & 0xff) as u8;
    assert(b0 + b1 * 0x100 == v) by (bit_vector)
        requires
            b0 == (v & 0xff) as u8,
            b1 == ((v >> 8) & 0xff) as u8;
}

/// The offset `pad_to_sector_end` moves to: the start of the next sector,
/// a whole sector further when the position already is at a sector start.
pub open spec fn next_sector_start(pos: int) -> int {
    pos + (SECTOR_SIZE - pos % (SECTOR_SIZE as int))
}

/// An in-memory buffer with a cursor, the target of every ISO 9660 writer.
/// Writing at the cursor overwrites or appends, and a seek past the end
/// leaves a gap that the next write fills with zeros.
pub struct ByteCursor {
    data: Vec<u8>,
    pos: usize,
}

impl ByteCursor {
    pub closed spec fn bytes(&self) -> Seq<u8> {
        self.data@
    }

    pub closed spec fn position(&self) -> nat {
        self.pos as nat
    }

    pub fn new() -> (r: ByteCursor)
        ensures
            r.bytes() == Seq::<u8>::empty(),
            r.position() == 0,
    {
        ByteCursor { data: Vec::new(), pos: 0 }
    }

    /// The bytes written so far.
    pub fn get_ref(&self) -> (r: &Vec<u8>)
        ensures
            r@ == self.bytes(),
    {
        &self.data
    }

    /// The bytes written, giving up the buffer.
    pub fn into_inner(self) -> (r: Vec<u8>)
        ensures
            r@ == self.bytes(),
    {
        self.data
    }

    /// The cursor position.
    pub fn get_position(&self) -> (r: u64)
        ensures
            r == self.position(),
    {
        self.pos as u64
    }

    /// Writes `bytes` at the cursor and moves the cursor behind them.
    pub fn write_all(&mut self, bytes: &[u8]) -> (r: Result<(), WriteError>)
        ensures
            old(self).position() + bytes@.len() <= usize::MAX ==> {
                &&& r is Ok
                &&& final(self).bytes() == write_at(old(self).bytes(), old(self).position() as int, bytes@)
                &&& final(self).position() == old(self).position() + bytes@.len()
            },
            old(self).position() + bytes@.len() > usize::MAX ==> {
                &&& r == Err::<(), WriteError>(WriteError::PositionOverflow)
                &&& *final(self) == *old(self)
            },
    {
        reveal(write_at);
        if bytes.len() > usize::MAX - self.pos {
            return Err(WriteError::PositionOverflow);
        }
        let ghost old_data = self.data@;
        let start = self.pos;
        if bytes.len() == 0 {
            assert(self.data@ =~= write_at(old_data, start as int, bytes@));
            return Ok(());
        }
        // Fill a gap left by a seek past the end.
        while self.data.len() < start
            invariant
                start == self.pos,
                start <= usize::MAX,
                old_data.len() <= self.data@.len() <= start || self.data@.len() == old_data.len(),
                forall|i: int| 0 <= i < self.data@.len() ==> #[trigger] self.data@[i] == (if i < old_data.len() { old_data[i] } else { 0u8 }),
            decreases start - self.data.len(),
        {
            self.data.push(0u8);
        }
        let mut k: usize = 0;
        while k < bytes.len()
            invariant
                start == self.pos,
                start + bytes@.len() <= usize::MAX,
                0 <= k <= bytes@.len(),
                self.data@.len() >= start + k,
                self.data@.len() == (if start + k > old_data.len() { (start + k) as int } else { old_data.len() as int }) || (start > old_data.len() && k == 0 && self.data@.len() == start),
                forall|i: int| 0 <= i < self.data@.len() ==> #[trigger] self.data@[i] == (
                    if start <= i < start + k {
                        bytes@[i - start]
                    } else if i < old_data.len() {
                        old_data[i]
                    } else {
                        0u8
                    }),
            decreases bytes.len() - k,
        {
            let at = start + k;
            if at < self.data.len() {
                self.data.set(at, bytes[k]);
            } else {
                self.data.push(bytes[k]);
            }
            k = k + 1;
        }
        self.pos = start + bytes.len();
        assert(self.data@ =~= write_at(old_data, start as int, bytes@));
        Ok(())
    }

    /// Moves the cursor `n` bytes forward without writing.
    pub fn seek_forward(&mut self, n: usize) -> (r: Result<(), WriteError>)
        ensures
            final(self).bytes() == old(self).bytes(),
            old(self).position() + n <= usize::MAX ==> r is Ok && final(self).position() == old(self).position() + n,
            old(self).position() + n > usize::MAX ==> r == Err::<(), WriteError>(WriteError::PositionOverflow)
                && final(self).position() == old(self).position(),
    {
        if n > usize::MAX - self.pos {
            return Err(WriteError::PositionOverflow);
        }
        self.pos = self.pos + n;
        Ok(())
    }
}

/// The bytes `write_padded_string` emits for `s` in a field of `len` bytes:
/// the first `len` bytes of the UTF-8 encoding, followed by spaces until the
/// text spans `len` characters.
pub open spec fn padded_field(s: Seq<char>, len: nat) -> Seq<u8> {
    let bytes = encode_utf8(s);
    let k = if len < bytes.len() { len as int } else { bytes.len() as int };
    let head = bytes.take(k);
    let chars = decode_utf8(head).len();
    let pad = if chars < len { (len - chars) as nat } else { 0nat };
    head + Seq::new(pad, |i: int| 32u8)
}

/// Whether `write_padded_string` can cut `s` to `len` bytes: the cut must
/// fall between two characters.
pub open spec fn cuts_at_char(s: Seq<char>, len: nat) -> bool {
    let bytes = encode_utf8(s);
    let k = if len < bytes.len() { len as int } else { bytes.len() as int };
    is_char_boundary(bytes, k)
}

/// Text whose encoding fits the field is never cut, so it is cut at a
/// character boundary.
pub proof fn lemma_fitting_text_cuts_at_char(s: Seq<char>, len: nat)
    requires
        encode_utf8(s).len() <= len,
    ensures
        cuts_at_char(s, len),
{
    vstd::utf8::encode_utf8_valid_utf8(s);
    vstd::utf8::is_char_boundary_start_end_of_seq(encode_utf8(s));
}

/// Writes the fields of an ISO 9660 image into a `ByteCursor`. Every write
/// reports the cursor position after it.
pub struct BinaryWriter {
    out: ByteCursor,
}

impl BinaryWriter {
    pub closed spec fn bytes(&self) -> Seq<u8> {
        self.out.bytes()
    }

    pub closed spec fn position(&self) -> nat {
        self.out.position()
    }

    /// The outcome of writing `bytes` at the position of `old` leading to `new`.
    pub open spec fn wrote(old: &Self, new: &Self, bytes: Seq<u8>, r: Result<u64, WriteError>) -> bool {
        if old.position() + bytes.len() <= usize::MAX {
            &&& new.bytes() == write_at(old.bytes(), old.position() as int, bytes)
            &&& new.position() == old.position() + bytes.len()
            &&& r == Ok::<u64, WriteError>(new.position() as u64)
        } else {
            &&& r == Err::<u64, WriteError>(WriteError::PositionOverflow)
            &&& new.bytes() == old.bytes()
        }
    }

    /// The position of a writer is an offset a buffer can address.
    pub proof fn lemma_position_bounded(&self)
        ensures
            self.position() <= usize::MAX,
    {
    }

    pub fn new(out: ByteCursor) -> (r: BinaryWriter)
        ensures
            r.bytes() == out.bytes(),
            r.position() == out.position(),
    {
        BinaryWriter { out }
    }

    /// The buffer written to.
    pub fn get_writer(&self) -> (r: &ByteCursor)
        ensures
            r.bytes() == self.bytes(),
            r.position() == self.position(),
    {
        &self.out
    }

    /// The buffer written to, giving up the writer.
    pub fn into_inner(self) -> (r: ByteCursor)
        ensures
            r.bytes() == self.bytes(),
            r.position() == self.position(),
    {
        self.out
    }

    pub fn write_byte(&mut self, byte: u8) -> (r: Result<u64, WriteError>)
        ensures
            Self::wrote(&*old(self), &*final(self), seq![byte], r),
    {
        let buf = [byte];
        assert(buf@ =~= seq![byte]);
        self.write_bytes(&buf)
    }

    pub fn write_bytes(&mut self, bytes: &[u8]) -> (r: Result<u64, WriteError>)
        ensures
            Self::wrote(&*old(self), &*final(self), bytes@, r),
    {
        match self.out.write_all(bytes) {
            Ok(()) => Ok(self.out.get_position()),
            Err(e) => Err(e),
        }
    }

    /// Writes `string` into a field of `len` bytes: cut to `len` bytes and
    /// padded with spaces.
    pub fn write_padded_string(&mut self, string: &str, len: usize) -> (r: Result<u64, WriteError>)
        requires
            cuts_at_char(string@, len as nat),
        ensures
            Self::wrote(&*old(self), &*final(self), padded_field(string@, len as nat), r),
    {
        broadcast use vstd::utf8::encode_utf8_decode_utf8;
        let all_bytes = string.as_bytes();
        let byte_len = all_bytes.len();
        let string_len = if byte_len < len { byte_len } else { len };
        proof {
            vstd::utf8::encode_utf8_valid_utf8(string@);
            assert(string.spec_bytes() == encode_utf8(string@));
            assert(string_len as int == (if (len as nat) < encode_utf8(string@).len() { len as int } else { encode_utf8(string@).len() as int }));
        }
        let (head, _) = string.split_at(string_len);
        let chars = head.unicode_len();
        let mut field: Vec<u8> = slice_to_vec(head.as_bytes());
        proof {
            vstd::utf8::encode_utf8_decode_utf8(head@);
        }
        let ghost head_bytes = field@;
        if chars < len {
            let mut i: usize = chars;
            while i < len
                invariant
                    chars <= i <= len,
                    field@ == head_bytes + Seq::new((i - chars) as nat, |j: int| 32u8),
                decreases len - i,
            {
                field.push(32u8);
                i = i + 1;
                assert(field@ =~= head_bytes + Seq::new((i - chars) as nat, |j: int| 32u8));
            }
        }
        assert(head_bytes == encode_utf8(string@).take(string_len as int));
        assert(decode_utf8(head_bytes) == head@);
        assert(field@ =~= padded_field(string@, len as nat));
        self.write_bytes(field.as_slice())
    }

    pub fn write_u32_le(&mut self, value: u32) -> (r: Result<u64, WriteError>)
        ensures
            Self::wrote(&*old(self), &*final(self), u32_le_bytes(value), r),
    {
        let buf = [(value & 0xff) as u8, ((value >> 8) & 0xff) as u8, ((value >> 16) & 0xff) as u8, ((value >> 24) & 0xff) as u8];
        assert(buf@ =~= u32_le_bytes(value));
        self.write_bytes(&buf)
    }

    pub fn write_u32_be(&mut self, value: u32) -> (r: Result<u64, WriteError>)
        ensures
            Self::wrote(&*old(self), &*final(self), u32_be_bytes(value), r),
    {
        let buf = [((value >> 24) & 0xff) as u8, ((value >> 16) & 0xff) as u8, ((value >> 8) & 0xff) as u8, (value & 0xff) as u8];
        assert(buf@ =~= u32_be_bytes(value));
        self.write_bytes(&buf)
    }

    /// Writes `value` in both byte orders, little endian first, as ISO 9660
    /// stores its numbers.
    pub fn write_u32_le_be(&mut self, value: u32) -> (r: Result<u64, WriteError>)
        ensures
            Self::wrote(&*old(self), &*final(self), u32_le_bytes(value) + u32_be_bytes(value), r),
    {
        let buf = [
            (value & 0xff) as u8, ((value >> 8) & 0xff) as u8, ((value >> 16) & 0xff) as u8, ((value >> 24) & 0xff) as u8,
            ((value >> 24) & 0xff) as u8, ((value >> 16) & 0xff) as u8, ((value >> 8) & 0xff) as u8, (value & 0xff) as u8,
        ];
        assert(buf@ =~= u32_le_bytes(value) + u32_be_bytes(value));
        self.write_bytes(&buf)
    }

    /// Writes `value` in both byte orders, little endian first.
    pub fn write_u16_le_be(&mut self, value: u16) -> (r: Result<u64, WriteError>)
        ensures
            Self::wrote(&*old(self), &*final(self), u16_le_bytes(value) + u16_be_bytes(value), r),
    {
        let buf = [(value & 0xff) as u8, ((value >> 8) & 0xff) as u8, ((value >> 8) & 0xff) as u8, (value & 0xff) as u8];
        assert(buf@ =~= u16_le_bytes(value) + u16_be_bytes(value));
        self.write_bytes(&buf)
    }

    /// Moves the position `bytes` forward, leaving what lies there as it is.
    pub fn skip(&mut self, bytes: u32) -> (r: Result<u64, WriteError>)
        ensures
            final(self).bytes() == old(self).bytes(),
            old(self).position() + bytes <= usize::MAX ==> {
                &&& final(self).position() == old(self).position() + bytes
                &&& r == Ok::<u64, WriteError>(final(self).position() as u64)
            },
            old(self).position() + bytes > usize::MAX ==> r == Err::<u64, WriteError>(WriteError::PositionOverflow),
    {
        match self.out.seek_forward(bytes as usize) {
            Ok(()) => Ok(self.out.get_position()),
            Err(e) => Err(e),
        }
    }

    /// Moves to the start of the next sector, writing a zero byte as the
    /// last byte of the current one. At a sector start it pads a whole
    /// sector.
    pub fn pad_to_sector_end(&mut self) -> (r: Result<u64, WriteError>)
        ensures
            next_sector_start(old(self).position() as int) <= usize::MAX ==> {
                &&& final(self).position() == next_sector_start(old(self).position() as int)
                &&& final(self).bytes() == write_at(old(self).bytes(), final(self).position() - 1, seq![0u8])
                &&& r == Ok::<u64, WriteError>(final(self).position() as u64)
            },
            next_sector_start(old(self).position() as int) > usize::MAX ==> r is Err,
    {
        let pos = self.out.get_position() as usize;
        let padding = SECTOR_SIZE - pos % SECTOR_SIZE;
        if padding > 1 {
            match self.skip((padding - 1) as u32) {
                Ok(_) => {},
                Err(e) => return Err(e),
            }
        }
        self.write_byte(0x00)
    }
}

} // verus!
