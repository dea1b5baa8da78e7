//! Fixed-capacity wire buffer with independent read and write cursors.
//!
//! Values are laid down big-endian; strings carry a four-byte length prefix
//! followed by their UTF-8 bytes. Every operation is bounds-checked against
//! the capacity and the cursors and never grows the buffer.

use vstd::prelude::*;
use vstd::utf8::decode_utf8;
use vstd::utf8::encode_utf8;
use vstd::utf8::valid_utf8;
use vstd::string::StrSliceExecFns;
use vstd::string::StringSliceAdditionalSpecFns;

verus! {

/// Capacity of the wire buffer, and the largest frame the codec accepts.
pub const BUFFER_SIZE: usize = 128;

/// How a codec operation can fail.
#[derive(Clone, Copy, PartialEq, Eq, Structural, Debug)]
pub enum CodecError {
    /// A write would run past the end of the buffer.
    BufferOverflow,
    /// A read would run past the write cursor.
    BufferUnderrun,
    /// A decoded string was not valid UTF-8.
    Malformed,
    /// A frame declared a length above the buffer capacity.
    FrameTooLarge,
}

/// The big-endian bytes of a 32-bit value, most significant first.
pub open spec fn be32_bytes(v: u32) -> Seq<u8> {
    seq![(v >> 24) as u8, (v >> 16) as u8, (v >> 8) as u8, v as u8]
}

/// The 32-bit value spelled by four big-endian bytes.
pub open spec fn be32_value(b0: u8, b1: u8, b2: u8, b3: u8) -> u32 {
    ((b0 as u32) << 24) | ((b1 as u32) << 16) | ((b2 as u32) << 8) | (b3 as u32)
}

/// Reading back the big-endian bytes of `v` yields `v` again.
pub proof fn lemma_be32_roundtrip(v: u32)
    ensures
        be32_value((v >> 24) as u8, (v >> 16) as u8, (v >> 8) as u8, v as u8) == v,
{
    assert((((((v >> 24) as u8) as u32) << 24) | ((((v >> 16) as u8) as u32) << 16) | ((((v
        >> 8) as u8) as u32) << 8) | (((v as u8) as u32))) == v) by (bit_vector);
}

/// Four big-endian bytes are recovered from the value they spell.
pub proof fn lemma_be32_bytes_of_value(b0: u8, b1: u8, b2: u8, b3: u8)
    ensures
        be32_bytes(be32_value(b0, b1, b2, b3)) == seq![b0, b1, b2, b3],
{
    let v = be32_value(b0, b1, b2, b3);
    assert((((b0 as u32) << 24 | (b1 as u32) << 16 | (b2 as u32) << 8 | (b3 as u32)) >> 24) as u8
        == b0) by (bit_vector);
    assert((((b0 as u32) << 24 | (b1 as u32) << 16 | (b2 as u32) << 8 | (b3 as u32)) >> 16) as u8
        == b1) by (bit_vector);
    assert((((b0 as u32) << 24 | (b1 as u32) << 16 | (b2 as u32) << 8 | (b3 as u32)) >> 8) as u8
        == b2) by (bit_vector);
    assert(((b0 as u32) << 24 | (b1 as u32) << 16 | (b2 as u32) << 8 | (b3 as u32)) as u8 == b3)
        by (bit_vector);
    assert(be32_bytes(v) =~= seq![b0, b1, b2, b3]);
}

/// Length prefix of the string whose encoding starts at `r` in `b`.
pub open spec fn str_len_at(b: Seq<u8>, r: int) -> int {
    be32_value(b[r], b[r + 1], b[r + 2], b[r + 3]) as int
}

/// Payload bytes of the string whose encoding starts at `r` in `b`.
pub open spec fn str_payload_at(b: Seq<u8>, r: int) -> Seq<u8> {
    b.subrange(r + 4, r + 4 + str_len_at(b, r))
}

/// Relies on String::from_utf8: it accepts exactly the valid UTF-8 byte
/// sequences and returns the string those bytes encode.
#[verifier::external_body]
fn vec_to_string(bytes: Vec<u8>) -> (r: Option<String>)
    ensures
        r is Some <==> valid_utf8(bytes@),
        r is Some ==> r->0@ == decode_utf8(bytes@),
{
    String::from_utf8(bytes).ok()
}

/// Fixed-capacity byte buffer with a read cursor and a write cursor.
pub struct Buffer {
    read_cursor: usize,
    write_cursor: usize,
    data: Vec<u8>,
}

impl Buffer {
    /// The buffer's backing bytes, cursors included or not.
    pub closed spec fn bytes(self) -> Seq<u8> {
        self.data@
    }

    /// Position of the read cursor.
    pub closed spec fn rpos(self) -> int {
        self.read_cursor as int
    }

    /// Position of the write cursor.
    pub closed spec fn wpos(self) -> int {
        self.write_cursor as int
    }

    /// The backing storage spans exactly the capacity and the cursors stay
    /// ordered within it.
    pub open spec fn wf(self) -> bool {
        &&& self.bytes().len() == BUFFER_SIZE
        &&& 0 <= self.rpos() <= self.wpos() <= BUFFER_SIZE
    }

    /// A zeroed buffer with both cursors at the start.
    pub fn new() -> (r: Buffer)
        ensures
            r.wf(),
            r.rpos() == 0,
            r.wpos() == 0,
            r.bytes() =~= Seq::new(BUFFER_SIZE as nat, |i: int| 0u8),
    {
        let mut data: Vec<u8> = Vec::new();
        let mut i: usize = 0;
        while i < BUFFER_SIZE
            invariant
                i <= BUFFER_SIZE,
                data@ =~= Seq::new(i as nat, |j: int| 0u8),
            decreases BUFFER_SIZE - i,
        {
            data.push(0u8);
            i = i + 1;
        }
        Buffer { read_cursor: 0, write_cursor: 0, data }
    }

    /// Rewinds both cursors without touching the stored bytes.
    pub fn reset(&mut self)
        requires
            old(self).wf(),
        ensures
            final(self).wf(),
            final(self).rpos() == 0,
            final(self).wpos() == 0,
            final(self).bytes() == old(self).bytes(),
    {
        self.read_cursor = 0;
        self.write_cursor = 0;
    }

    /// Reads one byte at the read cursor; fails without moving anything if
    /// the read cursor has caught up with the write cursor.
    pub fn next_u8(&mut self) -> (r: Result<u8, CodecError>)
        requires
            old(self).wf(),
        ensures
            final(self).wf(),
            final(self).bytes() == old(self).bytes(),
            final(self).wpos() == old(self).wpos(),
            old(self).rpos() + 1 <= old(self).wpos() ==> (r == Ok::<u8, CodecError>(
                old(self).bytes()[old(self).rpos()],
            ) && final(self).rpos() == old(self).rpos() + 1),
            old(self).rpos() + 1 > old(self).wpos() ==> (r == Err::<u8, CodecError>(
                CodecError::BufferUnderrun,
            ) && final(self).rpos() == old(self).rpos()),
    {
        if self.read_cursor + 1 > self.write_cursor {
            return Err(CodecError::BufferUnderrun);
        }
        let b = self.data[self.read_cursor];
        self.read_cursor = self.read_cursor + 1;
        Ok(b)
    }

    /// Reads four big-endian bytes at the read cursor as one 32-bit value;
    /// fails without moving anything if fewer than four bytes remain.
    pub fn next_u32(&mut self) -> (r: Result<u32, CodecError>)
        requires
            old(self).wf(),
        ensures
            final(self).wf(),
            final(self).bytes() == old(self).bytes(),
            final(self).wpos() == old(self).wpos(),
            old(self).rpos() + 4 <= old(self).wpos() ==> (r == Ok::<u32, CodecError>(
                be32_value(
                    old(self).bytes()[old(self).rpos()],
                    old(self).bytes()[old(self).rpos() + 1],
                    old(self).bytes()[old(self).rpos() + 2],
                    old(self).bytes()[old(self).rpos() + 3],
                ),
            ) && final(self).rpos() == old(self).rpos() + 4),
            old(self).rpos() + 4 > old(self).wpos() ==> (r == Err::<u32, CodecError>(
                CodecError::BufferUnderrun,
            ) && final(self).rpos() == old(self).rpos()),
    {
        if self.read_cursor + 4 > self.write_cursor {
            return Err(CodecError::BufferUnderrun);
        }
        let b0 = self.data[self.read_cursor];
        let b1 = self.data[self.read_cursor + 1];
        let b2 = self.data[self.read_cursor + 2];
        let b3 = self.data[self.read_cursor + 3];
        self.read_cursor = self.read_cursor + 4;
        Ok(((b0 as u32) << 24) | ((b1 as u32) << 16) | ((b2 as u32) << 8) | (b3 as u32))
    }

    /// Appends one byte at the write cursor; fails without moving anything if
    /// the buffer is full.
    pub fn put_u8(&mut self, val: u8) -> (r: Result<(), CodecError>)
        requires
            old(self).wf(),
        ensures
            final(self).wf(),
            final(self).rpos() == old(self).rpos(),
            old(self).wpos() + 1 <= BUFFER_SIZE ==> (r == Ok::<(), CodecError>(())
                && final(self).bytes() == old(self).bytes().update(old(self).wpos(), val)
                && final(self).wpos() == old(self).wpos() + 1),
            old(self).wpos() + 1 > BUFFER_SIZE ==> (r == Err::<(), CodecError>(
                CodecError::BufferOverflow,
            ) && final(self).bytes() == old(self).bytes()
                && final(self).wpos() == old(self).wpos()),
    {
        if self.write_cursor + 1 > BUFFER_SIZE {
            return Err(CodecError::BufferOverflow);
        }
        self.data[self.write_cursor] = val;
        self.write_cursor = self.write_cursor + 1;
        Ok(())
    }

    /// Appends a 32-bit value as four big-endian bytes at the write cursor;
    /// fails without moving anything if fewer than four bytes of room remain.
    pub fn put_u32(&mut self, val: u32) -> (r: Result<(), CodecError>)
        requires
            old(self).wf(),
        ensures
            final(self).wf(),
            final(self).rpos() == old(self).rpos(),
            old(self).wpos() + 4 <= BUFFER_SIZE ==> (r == Ok::<(), CodecError>(())
                && final(self).bytes() =~= old(self).bytes().subrange(0, old(self).wpos())
                + be32_bytes(val)
                + old(self).bytes().subrange(old(self).wpos() + 4, BUFFER_SIZE as int)
                && final(self).wpos() == old(self).wpos() + 4),
            old(self).wpos() + 4 > BUFFER_SIZE ==> (r == Err::<(), CodecError>(
                CodecError::BufferOverflow,
            ) && final(self).bytes() == old(self).bytes()
                && final(self).wpos() == old(self).wpos()),
    {
        if self.write_cursor + 4 > BUFFER_SIZE {
            return Err(CodecError::BufferOverflow);
        }
        self.data[self.write_cursor] = (val >> 24) as u8;
        self.data[self.write_cursor + 1] = (val >> 16) as u8;
        self.data[self.write_cursor + 2] = (val >> 8) as u8;
        self.data[self.write_cursor + 3] = val as u8;
        self.write_cursor = self.write_cursor + 4;
        Ok(())
    }

    /// Appends a four-byte big-endian length prefix followed by the string's
    /// UTF-8 bytes. When only the prefix fits, the prefix alone is written
    /// before the failure is reported, as the cursor positions show.
    pub fn put_string(&mut self, val: String) -> (r: Result<(), CodecError>)
        requires
            old(self).wf(),
        ensures
            final(self).wf(),
            final(self).rpos() == old(self).rpos(),
            old(self).wpos() + 4 > BUFFER_SIZE ==> (r == Err::<(), CodecError>(
                CodecError::BufferOverflow,
            ) && final(self).bytes() == old(self).bytes()
                && final(self).wpos() == old(self).wpos()),
            (old(self).wpos() + 4 <= BUFFER_SIZE && old(self).wpos() + 4 + encode_utf8(
                val@,
            ).len() > BUFFER_SIZE) ==> (r == Err::<(), CodecError>(CodecError::BufferOverflow)
                && final(self).bytes() =~= old(self).bytes().subrange(0, old(self).wpos())
                + be32_bytes(encode_utf8(val@).len() as u32)
                + old(self).bytes().subrange(old(self).wpos() + 4, BUFFER_SIZE as int)
                && final(self).wpos() == old(self).wpos() + 4),
            old(self).wpos() + 4 + encode_utf8(val@).len() <= BUFFER_SIZE ==> (r == Ok::<
                (),
                CodecError,
            >(()) && final(self).bytes() =~= old(self).bytes().subrange(0, old(self).wpos())
                + be32_bytes(encode_utf8(val@).len() as u32) + encode_utf8(val@)
                + old(self).bytes().subrange(
                old(self).wpos() + 4 + encode_utf8(val@).len(),
                BUFFER_SIZE as int,
            ) && final(self).wpos() == old(self).wpos() + 4 + encode_utf8(val@).len()),
    {
        let bytes = val.as_str().as_bytes_vec();
        let len = bytes.len();
        match self.put_u32(#[verifier::truncate] (len as u32)) {
            Ok(()) => {},
            Err(e) => {
                return Err(e);
            },
        }
        if len > BUFFER_SIZE - self.write_cursor {
            return Err(CodecError::BufferOverflow);
        }
        let ghost mid = self.data@;
        let mut i: usize = 0;
        while i < len
            invariant
                self.wf(),
                bytes@ == encode_utf8(val@),
                bytes@.len() == len,
                i <= len,
                self.write_cursor + len <= BUFFER_SIZE,
                self.read_cursor == old(self).rpos(),
                self.write_cursor == old(self).wpos() + 4,
                mid.len() == BUFFER_SIZE,
                self.data@.len() == BUFFER_SIZE,
                forall|j: int|
                    0 <= j < BUFFER_SIZE && !(self.wpos() <= j < self.wpos() + i)
                        ==> self.data@[j] == mid[j],
                forall|j: int| 0 <= j < i ==> self.data@[self.wpos() + j] == bytes@[j],
            decreases len - i,
        {
            self.data[self.write_cursor + i] = bytes[i];
            i = i + 1;
        }
        proof {
            let w = old(self).wpos();
            let hdr = be32_bytes(encode_utf8(val@).len() as u32);
            let pay = encode_utf8(val@);
            let tail = old(self).bytes().subrange(w + 4 + pay.len(), BUFFER_SIZE as int);
            let target = old(self).bytes().subrange(0, w) + hdr + pay + tail;
            assert forall|j: int| 0 <= j < BUFFER_SIZE implies self.data@[j] == target[j] by {
                if j < w {
                    assert(self.data@[j] == mid[j]);
                    assert(mid[j] == old(self).bytes()[j]);
                } else if j < w + 4 {
                    assert(self.data@[j] == mid[j]);
                    assert(mid[j] == hdr[j - w]);
                } else if j < w + 4 + pay.len() {
                    assert(self.data@[j] == bytes@[j - (w + 4)]);
                } else {
                    assert(self.data@[j] == mid[j]);
                    assert(mid[j] == old(self).bytes()[j]);
                }
            }
            assert(self.data@ =~= target);
        }
        self.write_cursor = self.write_cursor + len;
        Ok(())
    }

    /// Reads a length-prefixed UTF-8 string at the read cursor. A missing
    /// prefix moves nothing; a prefix that overruns the written bytes leaves
    /// the cursor past the prefix; bytes that are not UTF-8 are consumed and
    /// reported as malformed.
    pub fn next_string(&mut self) -> (r: Result<String, CodecError>)
        requires
            old(self).wf(),
        ensures
            final(self).wf(),
            final(self).bytes() == old(self).bytes(),
            final(self).wpos() == old(self).wpos(),
            old(self).rpos() + 4 > old(self).wpos() ==> (r == Err::<String, CodecError>(
                CodecError::BufferUnderrun,
            ) && final(self).rpos() == old(self).rpos()),
            (old(self).rpos() + 4 <= old(self).wpos() && old(self).rpos() + 4 + str_len_at(
                old(self).bytes(),
                old(self).rpos(),
            ) > old(self).wpos()) ==> (r == Err::<String, CodecError>(CodecError::BufferUnderrun)
                && final(self).rpos() == old(self).rpos() + 4),
            (old(self).rpos() + 4 + str_len_at(old(self).bytes(), old(self).rpos()) <= old(
                self,
            ).wpos() && valid_utf8(str_payload_at(old(self).bytes(), old(self).rpos()))) ==> (
            r matches Ok(s) && s@ == decode_utf8(str_payload_at(old(self).bytes(), old(self).rpos()))
                && final(self).rpos() == old(self).rpos() + 4 + str_len_at(
                old(self).bytes(),
                old(self).rpos(),
            )),
            (old(self).rpos() + 4 + str_len_at(old(self).bytes(), old(self).rpos()) <= old(
                self,
            ).wpos() && !valid_utf8(str_payload_at(old(self).bytes(), old(self).rpos()))) ==> (r
                == Err::<String, CodecError>(CodecError::Malformed) && final(self).rpos() == old(
                self,
            ).rpos() + 4 + str_len_at(old(self).bytes(), old(self).rpos())),
    {
        let len32 = match self.next_u32() {
            Ok(v) => v,
            Err(e) => {
                return Err(e);
            },
        };
        let len = len32 as usize;
        if len > self.write_cursor - self.read_cursor {
            return Err(CodecError::BufferUnderrun);
        }
        let mut payload: Vec<u8> = Vec::new();
        let mut i: usize = 0;
        while i < len
            invariant
                self.wf(),
                i <= len,
                self.read_cursor + len <= self.write_cursor,
                len == str_len_at(old(self).bytes(), old(self).rpos()),
                self.read_cursor == old(self).rpos() + 4,
                self.write_cursor == old(self).wpos(),
                self.data@ == old(self).bytes(),
                payload@ =~= old(self).bytes().subrange(
                    self.rpos(),
                    self.rpos() + i,
                ),
            decreases len - i,
        {
            payload.push(self.data[self.read_cursor + i]);
            i = i + 1;
        }
        proof {
            assert(payload@ =~= str_payload_at(old(self).bytes(), old(self).rpos()));
        }
        self.read_cursor = self.read_cursor + len;
        match vec_to_string(payload) {
            Some(s) => Ok(s),
            None => Err(CodecError::Malformed),
        }
    }

    /// Overwrites the start of the buffer with one frame's payload and sets
    /// the cursors to read it back; a payload above the capacity is refused
    /// untouched.
    pub fn load_frame(&mut self, payload: &Vec<u8>) -> (r: Result<(), CodecError>)
        requires
            old(self).wf(),
        ensures
            final(self).wf(),
            payload@.len() > BUFFER_SIZE ==> (r == Err::<(), CodecError>(CodecError::FrameTooLarge)
                && *final(self) == *old(self)),
            payload@.len() <= BUFFER_SIZE ==> (r == Ok::<(), CodecError>(()) && final(self).rpos()
                == 0 && final(self).wpos() == payload@.len() && final(self).bytes() =~= payload@
                + old(self).bytes().subrange(payload@.len() as int, BUFFER_SIZE as int)),
    {
        if payload.len() > BUFFER_SIZE {
            return Err(CodecError::FrameTooLarge);
        }
        self.read_cursor = 0;
        self.write_cursor = 0;
        let len = payload.len();
        let ghost start = self.data@;
        let mut i: usize = 0;
        while i < len
            invariant
                i <= len,
                len == payload@.len(),
                len <= BUFFER_SIZE,
                self.read_cursor == 0,
                self.write_cursor == 0,
                self.data@.len() == BUFFER_SIZE,
                start.len() == BUFFER_SIZE,
                forall|j: int| 0 <= j < i ==> self.data@[j] == payload@[j],
                forall|j: int| i <= j < BUFFER_SIZE ==> self.data@[j] == start[j],
            decreases len - i,
        {
            self.data[i] = payload[i];
            i = i + 1;
        }
        proof {
            assert(self.data@ =~= payload@ + start.subrange(len as int, BUFFER_SIZE as int));
        }
        self.write_cursor = len;
        Ok(())
    }

    /// The network form of the written bytes: a four-byte big-endian length
    /// followed by everything up to the write cursor.
    pub fn frame(&self) -> (r: Vec<u8>)
        requires
            self.wf(),
        ensures
            r@ =~= be32_bytes(self.wpos() as u32) + self.bytes().subrange(0, self.wpos()),
    {
        let len32 = self.write_cursor as u32;
        let mut r: Vec<u8> = Vec::new();
        r.push((len32 >> 24) as u8);
        r.push((len32 >> 16) as u8);
        r.push((len32 >> 8) as u8);
        r.push(len32 as u8);
        let mut i: usize = 0;
        while i < self.write_cursor
            invariant
                self.wf(),
                i <= self.wpos(),
                r@.len() == 4 + i,
                r@.subrange(0, 4) =~= be32_bytes(self.wpos() as u32),
                r@.subrange(4, 4 + i) =~= self.bytes().subrange(0, i as int),
            decreases self.wpos() - i,
        {
            r.push(self.data[i]);
            i = i + 1;
        }
        proof {
            assert(r@ =~= be32_bytes(self.wpos() as u32) + self.bytes().subrange(0, self.wpos()));
        }
        r
    }
}

} // verus!
