//! The byte cursor that all decoding goes through: sequential big-endian
//! reads, and blocks whose byte counts are held against declared lengths.
use crate::error::DecodeError;
use vstd::prelude::*;
use vstd::slice::{slice_subrange, slice_to_vec};
use vstd::utf8::{decode_utf8, encode_utf8, valid_utf8};

verus! {

/// The unsigned number that the two bytes at `at` spell, most significant first.
pub open spec fn be_u16(s: Seq<u8>, at: int) -> int {
    s[at] as int * 0x100 + s[at + 1] as int
}

/// The unsigned number that the four bytes at `at` spell, most significant first.
pub open spec fn be_u32(s: Seq<u8>, at: int) -> int {
    be_u16(s, at) * 0x1_0000 + be_u16(s, at + 2)
}

/// The unsigned number that the eight bytes at `at` spell, most significant first.
pub open spec fn be_u64(s: Seq<u8>, at: int) -> int {
    be_u32(s, at) * 0x1_0000_0000 + be_u32(s, at + 4)
}

/// The two's-complement reading of a 16-bit pattern.
pub open spec fn signed16(v: int) -> int {
    if v >= 0x8000 {
        v - 0x1_0000
    } else {
        v
    }
}

/// The two's-complement reading of a 32-bit pattern.
pub open spec fn signed32(v: int) -> int {
    if v >= 0x8000_0000 {
        v - 0x1_0000_0000
    } else {
        v
    }
}

/// The two's-complement reading of a 64-bit pattern.
pub open spec fn signed64(v: int) -> int {
    if v >= 0x8000_0000_0000_0000 {
        v - 0x1_0000_0000_0000_0000
    } else {
        v
    }
}

/// What a cursor is, as mathematics: the input, how far reading has come, and
/// where each block that is still open began (outermost first).
///
/// The running byte count of an open block is the distance from its start to
/// the position, so every read or skip raises the count of every open block
/// by the number of bytes it took.
pub struct ReaderView {
    pub input: Seq<u8>,
    pub pos: nat,
    pub blocks: Seq<nat>,
}

impl ReaderView {
    /// How many bytes are left to read.
    pub open spec fn remaining(self) -> int {
        self.input.len() - self.pos
    }

    /// The state after `n` more bytes were taken.
    pub open spec fn advance(self, n: nat) -> ReaderView {
        ReaderView { pos: self.pos + n, ..self }
    }

    /// The running byte count of the `i`-th open block.
    pub open spec fn count(self, i: int) -> int {
        self.pos - self.blocks[i]
    }

    /// The state after a new block was opened at the current position.
    pub open spec fn opened(self) -> ReaderView {
        ReaderView { blocks: self.blocks.push(self.pos), ..self }
    }

    /// The state after the innermost block was closed.
    pub open spec fn closed(self) -> ReaderView {
        ReaderView { blocks: self.blocks.drop_last(), ..self }
    }

    /// Whether reading that starts in this state can come to the state
    /// `later`: the input is the same, the position is not before this one,
    /// and every block that is open here is still open there.
    pub open spec fn reaches(self, later: ReaderView) -> bool {
        &&& later.input == self.input
        &&& self.pos <= later.pos
        &&& self.blocks.len() <= later.blocks.len()
        &&& forall|i: int|
            0 <= i < self.blocks.len() ==> #[trigger] later.blocks[i] == self.blocks[i]
    }

    /// Reading goes forward only: what can be reached from a state that can
    /// be reached can be reached.
    pub proof fn lemma_reaches_transitive(self, middle: ReaderView, later: ReaderView)
        requires
            self.reaches(middle),
            middle.reaches(later),
        ensures
            self.reaches(later),
    {
    }

    /// Taking `n` bytes raises the running count of every open block by `n`,
    /// whichever block the bytes belong to. Opening a block leaves the
    /// counts of the others as they are and starts the new one at zero;
    /// closing the innermost block leaves the counts of the others as they
    /// are.
    pub proof fn lemma_counts(self, n: nat, i: int)
        requires
            0 <= i < self.blocks.len(),
        ensures
            self.advance(n).count(i) == self.count(i) + n,
            self.opened().count(i) == self.count(i),
            self.opened().count(self.blocks.len() as int) == 0,
            i < self.blocks.len() - 1 ==> self.closed().count(i) == self.count(i),
    {
    }
}

/// Sequential, forward-only, big-endian reader over a byte buffer, with a
/// stack of running byte counters for length-delimited blocks.
pub struct BytesReader<'a> {
    bytes: &'a [u8],
    pos: usize,
    read_bytes: Vec<usize>,
}

/// Calls `String::from_utf8`, which is believed to accept exactly the byte
/// strings that are valid UTF-8, and to give the string whose UTF-8 encoding
/// is the bytes that it was given.
#[verifier::external_body]
fn string_from_utf8(bytes: Vec<u8>) -> (r: Option<String>)
    ensures
        r is Some <==> valid_utf8(bytes@),
        r matches Some(s) ==> encode_utf8(s@) == bytes@,
{
    match String::from_utf8(bytes) {
        Ok(s) => Some(s),
        Err(_) => None,
    }
}

impl<'a> View for BytesReader<'a> {
    type V = ReaderView;

    closed spec fn view(&self) -> ReaderView {
        ReaderView {
            input: self.bytes@,
            pos: self.pos as nat,
            blocks: Seq::new(
                self.read_bytes@.len(),
                |i: int| (self.pos - self.read_bytes@[i]) as nat,
            ),
        }
    }
}

impl<'a> BytesReader<'a> {
    /// The position is inside the input and no open block began after it.
    pub closed spec fn wf(&self) -> bool {
        &&& self.pos <= self.bytes@.len()
        &&& forall|i: int|
            0 <= i < self.read_bytes@.len() ==> #[trigger] self.read_bytes@[i] <= self.pos
    }

    /// A well-formed reader's view agrees with it: the position is inside the
    /// input and every open block began at or before the position.
    pub proof fn lemma_view_wf(&self)
        requires
            self.wf(),
        ensures
            self@.pos <= self@.input.len(),
            forall|i: int| 0 <= i < self@.blocks.len() ==> #[trigger] self@.blocks[i] <= self@.pos,
    {
    }

    pub fn new(bytes: &'a [u8]) -> (r: Self)
        ensures
            r.wf(),
            r@ == (ReaderView { input: bytes@, pos: 0, blocks: Seq::empty() }),
    {
        let r = BytesReader { bytes, pos: 0, read_bytes: Vec::new() };
        assert(r@.blocks =~= Seq::empty());
        r
    }

    /// How far reading has come.
    pub fn position(&self) -> (r: usize)
        requires
            self.wf(),
        ensures
            r == self@.pos,
    {
        self.pos
    }

    /// How many bytes are left.
    pub fn remaining(&self) -> (r: usize)
        requires
            self.wf(),
        ensures
            r == self@.remaining(),
    {
        self.bytes.len() - self.pos
    }

    /// How many blocks are open.
    pub fn open_blocks(&self) -> (r: usize)
        ensures
            r == self@.blocks.len(),
    {
        self.read_bytes.len()
    }

    /// Moves the position `amt` bytes on and adds `amt` to the running count
    /// of every open block.
    fn mark_read_bytes(&mut self, amt: usize)
        requires
            old(self).wf(),
            amt <= old(self)@.remaining(),
        ensures
            final(self).wf(),
            final(self)@ == old(self)@.advance(amt as nat),
    {
        let ghost before = self@;
        let n = self.read_bytes.len();
        let total = self.bytes.len();
        let mut i: usize = 0;
        while i < n
            invariant
                i <= n,
                total == self.bytes@.len(),
                n == self.read_bytes@.len(),
                self.bytes == old(self).bytes,
                self.pos == old(self).pos,
                self.pos + amt <= self.bytes@.len(),
                old(self).read_bytes@.len() == n,
                forall|j: int|
                    0 <= j < i ==> #[trigger] self.read_bytes@[j] == old(self).read_bytes@[j]
                        + amt,
                forall|j: int|
                    i <= j < n ==> #[trigger] self.read_bytes@[j] == old(self).read_bytes@[j],
                forall|j: int| 0 <= j < n ==> #[trigger] old(self).read_bytes@[j] <= old(self).pos,
            decreases n - i,
        {
            let c = self.read_bytes[i];
            self.read_bytes.set(i, c + amt);
            i = i + 1;
        }
        self.pos = self.pos + amt;
        assert(self@.blocks =~= before.blocks);
    }

    pub fn read_u8(&mut self) -> (r: Result<u8, DecodeError>)
        requires
            old(self).wf(),
        ensures
            final(self).wf(),
            old(self)@.remaining() >= 1 ==> r == Ok::<u8, DecodeError>(
                old(self)@.input[old(self)@.pos as int],
            ) && final(self)@ == old(self)@.advance(1),
            old(self)@.remaining() < 1 ==> r == Err::<u8, DecodeError>(DecodeError::UnexpectedEof)
                && final(self)@ == old(self)@,
    {
        if self.bytes.len() - self.pos < 1 {
            return Err(DecodeError::UnexpectedEof);
        }
        let b = self.bytes[self.pos];
        self.mark_read_bytes(1);
        Ok(b)
    }

    pub fn read_u16(&mut self) -> (r: Result<u16, DecodeError>)
        requires
            old(self).wf(),
        ensures
            final(self).wf(),
            old(self)@.remaining() >= 2 ==> r == Ok::<u16, DecodeError>(
                be_u16(old(self)@.input, old(self)@.pos as int) as u16,
            ) && final(self)@ == old(self)@.advance(2),
            old(self)@.remaining() < 2 ==> r == Err::<u16, DecodeError>(DecodeError::UnexpectedEof)
                && final(self)@ == old(self)@,
    {
        if self.bytes.len() - self.pos < 2 {
            return Err(DecodeError::UnexpectedEof);
        }
        let hi = self.bytes[self.pos] as u16;
        let lo = self.bytes[self.pos + 1] as u16;
        self.mark_read_bytes(2);
        Ok(hi * 0x100 + lo)
    }

    pub fn read_i16(&mut self) -> (r: Result<i16, DecodeError>)
        requires
            old(self).wf(),
        ensures
            final(self).wf(),
            old(self)@.remaining() >= 2 ==> r == Ok::<i16, DecodeError>(
                signed16(be_u16(old(self)@.input, old(self)@.pos as int)) as i16,
            ) && final(self)@ == old(self)@.advance(2),
            old(self)@.remaining() < 2 ==> r == Err::<i16, DecodeError>(DecodeError::UnexpectedEof)
                && final(self)@ == old(self)@,
    {
        let v = self.read_u16()?;
        if v >= 0x8000 {
            Ok((v - 0x8000) as i16 + i16::MIN)
        } else {
            Ok(v as i16)
        }
    }

    pub fn read_u32(&mut self) -> (r: Result<u32, DecodeError>)
        requires
            old(self).wf(),
        ensures
            final(self).wf(),
            old(self)@.remaining() >= 4 ==> r == Ok::<u32, DecodeError>(
                be_u32(old(self)@.input, old(self)@.pos as int) as u32,
            ) && final(self)@ == old(self)@.advance(4),
            old(self)@.remaining() < 4 ==> r == Err::<u32, DecodeError>(DecodeError::UnexpectedEof)
                && final(self)@ == old(self)@,
    {
        if self.bytes.len() - self.pos < 4 {
            return Err(DecodeError::UnexpectedEof);
        }
        let b0 = self.bytes[self.pos] as u32;
        let b1 = self.bytes[self.pos + 1] as u32;
        let b2 = self.bytes[self.pos + 2] as u32;
        let b3 = self.bytes[self.pos + 3] as u32;
        self.mark_read_bytes(4);
        Ok((b0 * 0x100 + b1) * 0x1_0000 + (b2 * 0x100 + b3))
    }

    pub fn read_i32(&mut self) -> (r: Result<i32, DecodeError>)
        requires
            old(self).wf(),
        ensures
            final(self).wf(),
            old(self)@.remaining() >= 4 ==> r == Ok::<i32, DecodeError>(
                signed32(be_u32(old(self)@.input, old(self)@.pos as int)) as i32,
            ) && final(self)@ == old(self)@.advance(4),
            old(self)@.remaining() < 4 ==> r == Err::<i32, DecodeError>(DecodeError::UnexpectedEof)
                && final(self)@ == old(self)@,
    {
        let v = self.read_u32()?;
        if v >= 0x8000_0000 {
            Ok((v - 0x8000_0000) as i32 + i32::MIN)
        } else {
            Ok(v as i32)
        }
    }

    pub fn read_u64(&mut self) -> (r: Result<u64, DecodeError>)
        requires
            old(self).wf(),
        ensures
            final(self).wf(),
            old(self)@.remaining() >= 8 ==> r == Ok::<u64, DecodeError>(
                be_u64(old(self)@.input, old(self)@.pos as int) as u64,
            ) && final(self)@ == old(self)@.advance(8),
            old(self)@.remaining() < 8 ==> r == Err::<u64, DecodeError>(DecodeError::UnexpectedEof)
                && final(self)@ == old(self)@,
    {
        if self.bytes.len() - self.pos < 8 {
            return Err(DecodeError::UnexpectedEof);
        }
        let hi = self.read_u32()? as u64;
        let lo = self.read_u32()? as u64;
        assert(final(self)@ == old(self)@.advance(8)) by {
            assert(old(self)@.advance(4).advance(4) == old(self)@.advance(8));
        }
        Ok(hi * 0x1_0000_0000 + lo)
    }

    pub fn read_i64(&mut self) -> (r: Result<i64, DecodeError>)
        requires
            old(self).wf(),
        ensures
            final(self).wf(),
            old(self)@.remaining() >= 8 ==> r == Ok::<i64, DecodeError>(
                signed64(be_u64(old(self)@.input, old(self)@.pos as int)) as i64,
            ) && final(self)@ == old(self)@.advance(8),
            old(self)@.remaining() < 8 ==> r == Err::<i64, DecodeError>(DecodeError::UnexpectedEof)
                && final(self)@ == old(self)@,
    {
        let v = self.read_u64()?;
        if v >= 0x8000_0000_0000_0000 {
            Ok((v - 0x8000_0000_0000_0000) as i64 + i64::MIN)
        } else {
            Ok(v as i64)
        }
    }

    /// Reads a 32-bit IEEE 754 value and gives its bit pattern.
    pub fn read_f32(&mut self) -> (r: Result<u32, DecodeError>)
        requires
            old(self).wf(),
        ensures
            final(self).wf(),
            old(self)@.remaining() >= 4 ==> r == Ok::<u32, DecodeError>(
                be_u32(old(self)@.input, old(self)@.pos as int) as u32,
            ) && final(self)@ == old(self)@.advance(4),
            old(self)@.remaining() < 4 ==> r == Err::<u32, DecodeError>(DecodeError::UnexpectedEof)
                && final(self)@ == old(self)@,
    {
        self.read_u32()
    }

    /// Reads a 64-bit IEEE 754 value and gives its bit pattern.
    pub fn read_f64(&mut self) -> (r: Result<u64, DecodeError>)
        requires
            old(self).wf(),
        ensures
            final(self).wf(),
            old(self)@.remaining() >= 8 ==> r == Ok::<u64, DecodeError>(
                be_u64(old(self)@.input, old(self)@.pos as int) as u64,
            ) && final(self)@ == old(self)@.advance(8),
            old(self)@.remaining() < 8 ==> r == Err::<u64, DecodeError>(DecodeError::UnexpectedEof)
                && final(self)@ == old(self)@,
    {
        self.read_u64()
    }

    /// Reads the next `bytes_to_read` bytes as they are.
    pub fn read_bytes(&mut self, bytes_to_read: usize) -> (r: Result<Vec<u8>, DecodeError>)
        requires
            old(self).wf(),
        ensures
            final(self).wf(),
            old(self)@.remaining() >= bytes_to_read ==> (r matches Ok(v) && v@
                == old(self)@.input.subrange(
                old(self)@.pos as int,
                old(self)@.pos + bytes_to_read,
            )) && final(self)@ == old(self)@.advance(bytes_to_read as nat),
            old(self)@.remaining() < bytes_to_read ==> r == Err::<Vec<u8>, DecodeError>(
                DecodeError::UnexpectedEof,
            ) && final(self)@ == old(self)@,
    {
        if self.bytes.len() - self.pos < bytes_to_read {
            return Err(DecodeError::UnexpectedEof);
        }
        let out = slice_to_vec(slice_subrange(self.bytes, self.pos, self.pos + bytes_to_read));
        self.mark_read_bytes(bytes_to_read);
        Ok(out)
    }

    /// Reads the next `bytes_of_utf8_string` bytes as UTF-8 text.
    pub fn read_string(&mut self, bytes_of_utf8_string: usize) -> (r: Result<String, DecodeError>)
        requires
            old(self).wf(),
        ensures
            final(self).wf(),
            match spec_read_string(old(self)@, bytes_of_utf8_string as nat) {
                Ok(text) => (r matches Ok(s) && s@ == text) && final(self)@ == old(self)@.advance(
                    bytes_of_utf8_string as nat,
                ),
                Err(DecodeError::UnexpectedEof) => r == Err::<String, DecodeError>(
                    DecodeError::UnexpectedEof,
                ) && final(self)@ == old(self)@,
                Err(e) => r == Err::<String, DecodeError>(e) && final(self)@ == old(self)@.advance(
                    bytes_of_utf8_string as nat,
                ),
            },
    {
        let vec = self.read_bytes(bytes_of_utf8_string)?;
        proof {
            vstd::utf8::encode_utf8_decode_utf8(decode_utf8(vec@));
        }
        match string_from_utf8(vec) {
            Some(s) => {
                proof {
                    vstd::utf8::encode_utf8_decode_utf8(s@);
                }
                Ok(s)
            },
            None => Err(DecodeError::InvalidUtf8),
        }
    }

    /// Skips `amt` bytes without looking at them.
    pub fn consume(&mut self, amt: usize) -> (r: Result<(), DecodeError>)
        requires
            old(self).wf(),
        ensures
            final(self).wf(),
            old(self)@.remaining() >= amt ==> r == Ok::<(), DecodeError>(()) && final(self)@
                == old(self)@.advance(amt as nat),
            old(self)@.remaining() < amt ==> r == Err::<(), DecodeError>(DecodeError::UnexpectedEof)
                && final(self)@ == old(self)@,
    {
        if self.bytes.len() - self.pos < amt {
            return Err(DecodeError::UnexpectedEof);
        }
        self.mark_read_bytes(amt);
        Ok(())
    }

    /// Opens a block at the current position: its running count starts at zero.
    pub fn begin_read_block(&mut self)
        requires
            old(self).wf(),
        ensures
            final(self).wf(),
            final(self)@ == old(self)@.opened(),
    {
        self.read_bytes.push(0);
        assert(self@.blocks =~= old(self)@.opened().blocks);
    }

    /// Closes the innermost block and holds its running count against `amt`,
    /// the length that the block declared.
    pub fn assert_read(&mut self, amt: usize) -> (r: Result<(), DecodeError>)
        requires
            old(self).wf(),
            old(self)@.blocks.len() > 0,
        ensures
            final(self).wf(),
            final(self)@ == old(self)@.closed(),
            r == spec_assert_read(old(self)@, amt),
    {
        let read_bytes = self.read_bytes.pop().unwrap();
        assert(self@.blocks =~= old(self)@.closed().blocks);
        if read_bytes == amt {
            Ok(())
        } else {
            Err(DecodeError::LengthMismatch { expected: amt, actual: read_bytes })
        }
    }
}

/// What reading `n` bytes of text gives: the decoded characters, or why not.
pub open spec fn spec_read_string(r: ReaderView, n: nat) -> Result<Seq<char>, DecodeError> {
    if r.remaining() < n {
        Err(DecodeError::UnexpectedEof)
    } else {
        let bytes = r.input.subrange(r.pos as int, (r.pos + n) as int);
        if valid_utf8(bytes) {
            Ok(decode_utf8(bytes))
        } else {
            Err(DecodeError::InvalidUtf8)
        }
    }
}

/// What closing the innermost block against a declared length gives.
pub open spec fn spec_assert_read(r: ReaderView, amt: usize) -> Result<(), DecodeError> {
    let count = r.count(r.blocks.len() - 1);
    if count == amt {
        Ok(())
    } else {
        Err(DecodeError::LengthMismatch { expected: amt, actual: count as usize })
    }
}

} // verus!
