//! Little-endian reads from a byte slice.

use byteorder::{LittleEndian, ReadBytesExt};
use vstd::prelude::*;
use vstd::slice::{slice_subrange, slice_to_vec};

verus! {

/// The error of a read that runs into the end of the data.
#[verifier::external_type_specification]
#[verifier::external_body]
pub struct ExIoError(std::io::Error);

/// The number whose little-endian bytes are `bytes`.
pub open spec fn le_value(bytes: Seq<u8>) -> nat
    decreases bytes.len(),
{
    if bytes.len() == 0 {
        0
    } else {
        bytes[0] as nat + 256 * le_value(bytes.drop_first())
    }
}

/// Calls `byteorder::ReadBytesExt::read_u8` at the start of `bytes`. It gives the first byte,
/// and fails if there is none.
#[verifier::external_body]
fn read_u8(bytes: &[u8]) -> (r: Result<u8, std::io::Error>)
    ensures
        r is Ok <==> bytes@.len() >= 1,
        r matches Ok(v) ==> v == bytes@[0],
{
    std::io::Cursor::new(bytes).read_u8()
}

/// What `e` displays is `words`.
pub open spec fn displays(e: std::io::Error, words: Seq<char>) -> bool {
    forall|s: String| #[trigger]
        vstd::string::to_string_from_display_ensures(&e, s) ==> s@ == words
}

/// What the error of `byteorder::ReadBytesExt::read_u16` displays, where it fails on `bytes`.
pub uninterp spec fn read_u16_failure(bytes: Seq<u8>) -> Seq<char>;

/// Calls `byteorder::ReadBytesExt::read_u16` for `LittleEndian` at the start of `bytes`. It
/// gives the number in the first two bytes, and fails if there are fewer. What its error
/// displays depends on the bytes alone. Which words these are is not said.
#[verifier::external_body]
fn read_u16_le(bytes: &[u8]) -> (r: Result<u16, std::io::Error>)
    ensures
        r is Ok <==> bytes@.len() >= 2,
        r matches Ok(v) ==> v == le_value(bytes@.take(2)),
        r matches Err(e) ==> displays(e, read_u16_failure(bytes@)),
{
    std::io::Cursor::new(bytes).read_u16::<LittleEndian>()
}

/// Calls `byteorder::ReadBytesExt::read_u128` for `LittleEndian` at the start of `bytes`. It
/// gives the number in the first sixteen bytes, and fails if there are fewer.
#[verifier::external_body]
fn read_u128_le(bytes: &[u8]) -> (r: Result<u128, std::io::Error>)
    ensures
        r is Ok <==> bytes@.len() >= 16,
        r matches Ok(v) ==> v == le_value(bytes@.take(16)),
{
    std::io::Cursor::new(bytes).read_u128::<LittleEndian>()
}

/// A position in a slice of bytes. A read that fails moves to the end.
pub struct ByteReader<'a> {
    data: &'a [u8],
    position: usize,
}

impl<'a> ByteReader<'a> {
    pub closed spec fn wf(self) -> bool {
        self.position <= self.data@.len()
    }

    /// The bytes that are left to read.
    pub closed spec fn rest(self) -> Seq<u8> {
        self.data@.skip(self.position as int)
    }

    /// A reader at the start of `data`.
    pub fn new(data: &'a [u8]) -> (r: Self)
        ensures
            r.wf(),
            r.rest() == data@,
    {
        let r = Self { data, position: 0 };
        assert(r.rest() =~= data@);
        r
    }

    fn remainder(&self) -> (r: &'a [u8])
        requires
            self.wf(),
        ensures
            r@ == self.rest(),
    {
        assert(self.data@.subrange(self.position as int, self.data@.len() as int) =~= self.rest());
        slice_subrange(self.data, self.position, self.data.len())
    }

    /// Goes past `count` bytes.
    fn advance(&mut self, count: usize)
        requires
            old(self).wf(),
            count <= old(self).rest().len(),
        ensures
            final(self).wf(),
            final(self).rest() == old(self).rest().skip(count as int),
    {
        assert(self.position + count <= self.data.len());
        self.position = self.position + count;
        assert(self.rest() =~= old(self).rest().skip(count as int));
    }

    fn advance_to_end(&mut self)
        ensures
            final(self).wf(),
            final(self).rest() == Seq::<u8>::empty(),
    {
        self.position = self.data.len();
        assert(self.rest() =~= Seq::<u8>::empty());
    }

    /// Reads a byte.
    pub fn read_u8(&mut self) -> (r: Result<u8, std::io::Error>)
        requires
            old(self).wf(),
        ensures
            final(self).wf(),
            r is Ok <==> old(self).rest().len() >= 1,
            r matches Ok(v) ==> v == old(self).rest()[0] && final(self).rest() == old(
                self,
            ).rest().skip(1),
            r is Err ==> final(self).rest() == Seq::<u8>::empty(),
    {
        let r = read_u8(self.remainder());
        if r.is_ok() {
            self.advance(1);
        } else {
            self.advance_to_end();
        }
        r
    }

    /// Reads a 16-bit number.
    pub fn read_u16(&mut self) -> (r: Result<u16, std::io::Error>)
        requires
            old(self).wf(),
        ensures
            final(self).wf(),
            r is Ok <==> old(self).rest().len() >= 2,
            r matches Ok(v) ==> v == le_value(old(self).rest().take(2)) && final(self).rest()
                == old(self).rest().skip(2),
            r matches Err(e) ==> displays(e, read_u16_failure(old(self).rest()))
                && final(self).rest() == Seq::<u8>::empty(),
    {
        let r = read_u16_le(self.remainder());
        if r.is_ok() {
            self.advance(2);
        } else {
            self.advance_to_end();
        }
        r
    }

    /// Reads a 128-bit number.
    pub fn read_u128(&mut self) -> (r: Result<u128, std::io::Error>)
        requires
            old(self).wf(),
        ensures
            final(self).wf(),
            r is Ok <==> old(self).rest().len() >= 16,
            r matches Ok(v) ==> v == le_value(old(self).rest().take(16)) && final(self).rest()
                == old(self).rest().skip(16),
            r is Err ==> final(self).rest() == Seq::<u8>::empty(),
    {
        let r = read_u128_le(self.remainder());
        if r.is_ok() {
            self.advance(16);
        } else {
            self.advance_to_end();
        }
        r
    }

    /// Reads `count` bytes, if there are as many.
    pub fn read_exact(&mut self, count: usize) -> (r: Option<Vec<u8>>)
        requires
            old(self).wf(),
        ensures
            final(self).wf(),
            r is Some <==> old(self).rest().len() >= count,
            r matches Some(v) ==> v@ == old(self).rest().take(count as int) && final(self).rest()
                == old(self).rest().skip(count as int),
            r is None ==> final(self).rest() == Seq::<u8>::empty(),
    {
        let rest = self.remainder();
        if rest.len() < count {
            self.advance_to_end();
            return None;
        }
        let v = slice_to_vec(slice_subrange(rest, 0, count));
        self.advance(count);
        assert(v@ =~= old(self).rest().take(count as int));
        Some(v)
    }
}

/// Reads all bytes that are left.
pub fn read_remainder(cursor: ByteReader<'_>) -> (out: Vec<u8>)
    requires
        cursor.wf(),
    ensures
        out@ == cursor.rest(),
{
    slice_to_vec(cursor.remainder())
}

} // verus!
