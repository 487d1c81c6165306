//! Port commands, and the traits of things that are read, written, sought
//! in and cleared byte by byte.

use vstd::prelude::*;
use vstd::string::StringSliceAdditionalSpecFns;

verus! {

/// One byte to be written to an I/O port.
#[derive(Clone, Copy, Debug, PartialEq, Eq, Structural)]
pub struct PortWrite {
    pub port: u16,
    pub value: u8,
}

/// The port that is written to in order to wait a moment.
pub const WAIT_PORT: u16 = 0x80;

/// The write that waits a very short time: a zero to a port nothing
/// listens on.
pub fn wait() -> (r: PortWrite)
    ensures
        r == (PortWrite { port: WAIT_PORT, value: 0 }),
{
    PortWrite { port: WAIT_PORT, value: 0 }
}

/// Something with a cursor.
pub trait Seek {
    /// Where the cursor stands.
    spec fn position(&self) -> usize;

    /// Puts the cursor at `pos`.
    fn seek(&mut self, pos: usize)
        ensures
            final(self).position() == pos,
    ;

    /// Where the cursor stands.
    fn get_cursor_position(&self) -> (r: usize)
        ensures
            r == self.position(),
    ;
}

/// Something bytes are written to at the cursor.
pub trait Write: Seek {
    /// Whether a byte can be written where the cursor stands.
    spec fn can_write(&self) -> bool;

    /// Writes one byte at the cursor.
    fn write_byte(&mut self, byte: u8)
        requires
            old(self).can_write(),
    ;

    /// Whether `self` is what writing `bytes` from the cursor on makes of
    /// `before`.
    spec fn wrote(&self, before: &Self, bytes: Seq<u8>) -> bool;

    /// Writes the bytes from the cursor on.
    fn write_bytes(&mut self, bytes: &[u8])
        requires
            old(self).can_write(),
        ensures
            final(self).wrote(old(self), bytes@),
    ;

    /// Writes a string. Unless an implementor says otherwise, the bytes of
    /// the string are written as `write_bytes` writes them.
    fn write_string(&mut self, str: &str)
        requires
            old(self).can_write(),
        default_ensures
            final(self).wrote(old(self), str.spec_bytes()),
    {
        self.write_bytes(str.as_bytes());
    }
}

/// Decodes bytes as text through `String::from_utf8`, which accepts
/// exactly the byte sequences that are valid UTF-8 and then gives the
/// characters they encode.
#[verifier::external_body]
fn text_of(bytes: Vec<u8>) -> (r: Option<String>)
    ensures
        r is Some <==> vstd::utf8::valid_utf8(bytes@),
        r matches Some(s) ==> s@ == vstd::utf8::decode_utf8(bytes@),
{
    String::from_utf8(bytes).ok()
}

/// The error of the standard library for bytes that are no UTF-8.
#[verifier::external_type_specification]
#[verifier::external_body]
pub struct ExUtf8Error(core::str::Utf8Error);

/// How many bytes from the start were valid when the check of some bytes
/// failed with this error.
pub uninterp spec fn valid_prefix(error: core::str::Utf8Error) -> usize;

/// Checks bytes through `core::str::from_utf8`, which accepts exactly the
/// byte sequences that are valid UTF-8. Its error says up to where the
/// bytes were valid: that index lies inside the bytes, the bytes before it
/// are valid, and no longer run of them from the start is.
#[verifier::external_body]
fn check_text(bytes: &[u8]) -> (r: Result<(), core::str::Utf8Error>)
    ensures
        r is Ok <==> vstd::utf8::valid_utf8(bytes@),
        r matches Err(e) ==> valid_prefix(e) < bytes@.len() && vstd::utf8::valid_utf8(
            bytes@.subrange(0, valid_prefix(e) as int),
        ) && forall|m: int|
            valid_prefix(e) < m <= bytes@.len() ==> !vstd::utf8::valid_utf8(
                #[trigger] bytes@.subrange(0, m),
            ),
{
    match core::str::from_utf8(bytes) {
        Ok(_) => Ok(()),
        Err(error) => Err(error),
    }
}

/// Reads from the error through `Utf8Error::valid_up_to` up to where the
/// bytes were valid.
#[verifier::external_body]
fn valid_up_to(error: &core::str::Utf8Error) -> (r: usize)
    ensures
        r == valid_prefix(*error),
{
    error.valid_up_to()
}

/// Why bytes that were read are no text.
#[derive(Clone, Copy, Debug, PartialEq, Eq, Structural)]
pub struct TextError {
    /// The number of bytes from the start that are valid UTF-8; no longer
    /// run of the bytes from the start is.
    pub valid_up_to: usize,
}

/// What `read_string` answers for the bytes it has read: the text they
/// encode, or up to where they are valid.
pub open spec fn is_text_result(bytes: Seq<u8>, r: Result<String, TextError>) -> bool {
    match r {
        Ok(s) => vstd::utf8::valid_utf8(bytes) && s@ == vstd::utf8::decode_utf8(bytes),
        Err(e) => {
            &&& !vstd::utf8::valid_utf8(bytes)
            &&& e.valid_up_to < bytes.len()
            &&& vstd::utf8::valid_utf8(bytes.subrange(0, e.valid_up_to as int))
            &&& forall|m: int|
                e.valid_up_to < m <= bytes.len() ==> !vstd::utf8::valid_utf8(
                    #[trigger] bytes.subrange(0, m),
                )
        },
    }
}

/// Something bytes are read from at the cursor.
pub trait Read: Seek {
    /// Whether a byte can be read where the cursor stands.
    spec fn can_read(&self) -> bool;

    /// The byte at the cursor.
    spec fn current_byte(&self) -> u8;

    /// Reads the byte at the cursor.
    fn read_byte(&self) -> (r: u8)
        requires
            self.can_read(),
        ensures
            r == self.current_byte(),
    ;

    /// Fills every place of `buffer` with the byte at the cursor, and says
    /// how many were filled.
    fn read_bytes(&self, buffer: &mut Vec<u8>) -> (r: usize)
        requires
            self.can_read(),
        ensures
            r == old(buffer).len(),
            final(buffer)@ == Seq::new(old(buffer).len() as nat, |i: int| self.current_byte()),
    {
        let mut i: usize = 0;
        while i < buffer.len()
            invariant
                self.can_read(),
                buffer.len() == old(buffer).len(),
                i <= buffer.len(),
                forall|k: int| 0 <= k < i ==> buffer@[k] == self.current_byte(),
            decreases buffer.len() - i,
        {
            buffer[i] = self.read_byte();
            i += 1;
        }
        proof {
            assert(buffer@ =~= Seq::new(old(buffer).len() as nat, |i: int| self.current_byte()));
        }
        buffer.len()
    }

    /// Reads the byte at the cursor as a character.
    fn read_char(&self) -> (r: char)
        requires
            self.can_read(),
        ensures
            r == self.current_byte() as char,
    {
        self.read_byte() as char
    }

    /// Reads `len` bytes as `read_bytes` does and gives them as text, or
    /// says up to where they are valid UTF-8 if they are not.
    fn read_string(&self, len: usize) -> (r: Result<String, TextError>)
        requires
            self.can_read(),
        ensures
            is_text_result(Seq::new(len as nat, |i: int| self.current_byte()), r),
    {
        let mut buffer: Vec<u8> = Vec::new();
        let mut i: usize = 0;
        while i < len
            invariant
                i <= len,
                buffer.len() == i,
            decreases len - i,
        {
            buffer.push(0);
            i += 1;
        }
        self.read_bytes(&mut buffer);
        proof {
            assert(buffer@ =~= Seq::new(len as nat, |i: int| self.current_byte()));
        }
        match check_text(buffer.as_slice()) {
            Err(error) => Err(TextError { valid_up_to: valid_up_to(&error) }),
            Ok(()) => match text_of(buffer) {
                Some(text) => Ok(text),
                None => Err(TextError { valid_up_to: 0 }),
            },
        }
    }
}

/// Something that can be wiped.
pub trait Clear {
    /// Wipes it.
    fn clear(&mut self);
}

} // verus!
