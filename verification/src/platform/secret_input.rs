use vstd::prelude::*;
use vstd::string::{StrSliceExecFns, StringExecFns};
use vstd::utf8::{decode_utf8, valid_utf8};
use crate::text::{decode_text, utf8_incomplete};

verus! {

/// What reading a secret does after a byte.
#[derive(Debug)]
pub enum SecretStep {
    /// Reads on.
    Continue,
    /// The secret is complete, or the read failed.
    Done(Result<String, ()>),
    /// The user pressed Ctrl+C: the terminal is to be reset and the
    /// program to end.
    Interrupted,
}

/// A secret typed on a terminal in raw mode, read byte by byte: the text so
/// far, and the bytes of a character not yet complete.
pub struct SecretReader {
    pub password: String,
    pub pending: Vec<u8>,
}

/// The bytes that end a secret: line feed and carriage return.
pub open spec fn is_line_end(b: u8) -> bool {
    b == 0x0A || b == 0x0D
}

/// The bytes that take back the last character: backspace and delete.
pub open spec fn is_erase(b: u8) -> bool {
    b == 0x08 || b == 0x7F
}

impl SecretReader {
    pub fn new() -> (r: SecretReader)
        ensures
            r.password@.len() == 0,
            r.pending@.len() == 0,
    {
        SecretReader { password: String::new(), pending: Vec::new() }
    }

    /// Takes the next byte read, or none where the read ended or failed.
    /// Ctrl+C interrupts; a line end completes the secret, unless a
    /// character is left unfinished; backspace and delete drop the last
    /// character and any unfinished one; other bytes collect until they
    /// make a character, and bytes that cannot make one fail the read.
    pub fn step(&mut self, byte: Option<u8>) -> (r: SecretStep)
        ensures
            byte is None ==> r matches SecretStep::Done(Err(())),
            byte == Some(0x03u8) ==> r is Interrupted,
            byte is Some && is_line_end(byte.unwrap()) ==> (if old(self).pending@.len() == 0 {
                r matches SecretStep::Done(Ok(s)) && s@ == old(self).password@
            } else {
                r matches SecretStep::Done(Err(()))
            }),
            byte is Some && is_erase(byte.unwrap()) ==> r is Continue && final(self).pending@.len() == 0
                && final(self).password@ == (if old(self).password@.len() > 0 {
                    old(self).password@.drop_last()
                } else {
                    old(self).password@
                }),
            byte is Some && byte.unwrap() != 0x03 && !is_line_end(byte.unwrap()) && !is_erase(byte.unwrap()) ==> {
                let bytes = old(self).pending@.push(byte.unwrap());
                if valid_utf8(bytes) {
                    r is Continue && final(self).pending@.len() == 0
                        && final(self).password@ == old(self).password@ + decode_utf8(bytes)
                } else if utf8_incomplete(bytes) {
                    r is Continue && final(self).pending@ == bytes && final(self).password@ == old(self).password@
                } else {
                    r matches SecretStep::Done(Err(()))
                }
            },
    {
        let b = match byte {
            None => return SecretStep::Done(Err(())),
            Some(b) => b,
        };
        if b == 0x03 {
            return SecretStep::Interrupted;
        }
        if b == 0x0A || b == 0x0D {
            if self.pending.len() == 0 {
                return SecretStep::Done(Ok(self.password.clone()));
            }
            return SecretStep::Done(Err(()));
        }
        if b == 0x08 || b == 0x7F {
            self.pending = Vec::new();
            let n = self.password.unicode_len();
            if n > 0 {
                let shorter = self.password.as_str().substring_char(0, n - 1).to_string();
                assert(shorter@ =~= old(self).password@.drop_last());
                self.password = shorter;
            }
            return SecretStep::Continue;
        }
        self.pending.push(b);
        match decode_text(self.pending.as_slice()) {
            Ok(text) => {
                self.password.append(text.as_str());
                self.pending = Vec::new();
                SecretStep::Continue
            },
            Err(None) => SecretStep::Continue,
            Err(Some(_)) => SecretStep::Done(Err(())),
        }
    }
}

} // verus!
