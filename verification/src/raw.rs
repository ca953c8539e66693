//! Little-endian cursor over a byte slice, and a growing little-endian writer.

use vstd::prelude::*;
use vstd::bytes::*;
use vstd::slice::*;

verus! {

/// The `n` zero bytes.
pub open spec fn zeros(n: nat) -> Seq<u8> {
    Seq::new(n, |i: int| 0u8)
}

/// A read cursor over a borrowed byte slice.
pub struct Reader<'a> {
    buf: &'a [u8],
    pos: usize,
}

impl<'a> Reader<'a> {
    /// The bytes the cursor reads from.
    pub closed spec fn bytes(&self) -> Seq<u8> {
        self.buf@
    }

    /// The position of the next byte to read.
    pub closed spec fn pos(&self) -> nat {
        self.pos as nat
    }

    pub fn new(buf: &'a [u8]) -> (r: Self)
        ensures
            r.bytes() == buf@,
            r.pos() == 0,
    {
        Self { buf, pos: 0 }
    }

    pub fn position(&self) -> (p: usize)
        ensures
            p == self.pos(),
    {
        self.pos
    }

    pub fn seek(&mut self, pos: usize)
        ensures
            final(self).bytes() == old(self).bytes(),
            final(self).pos() == pos,
    {
        self.pos = pos;
    }

    pub fn skip(&mut self, len: usize)
        requires
            old(self).pos() + len <= usize::MAX,
        ensures
            final(self).bytes() == old(self).bytes(),
            final(self).pos() == old(self).pos() + len,
    {
        self.pos = self.pos + len;
    }

    pub fn read_u8(&mut self) -> (v: u8)
        requires
            old(self).pos() < old(self).bytes().len(),
        ensures
            v == old(self).bytes()[old(self).pos() as int],
            final(self).bytes() == old(self).bytes(),
            final(self).pos() == old(self).pos() + 1,
    {
        let v = self.buf[self.pos];
        self.pos = self.pos + 1;
        v
    }

    pub fn read_u32(&mut self) -> (v: u32)
        requires
            old(self).pos() + 4 <= old(self).bytes().len(),
        ensures
            v == spec_u32_from_le_bytes(
                old(self).bytes().subrange(old(self).pos() as int, old(self).pos() + 4int),
            ),
            final(self).bytes() == old(self).bytes(),
            final(self).pos() == old(self).pos() + 4,
    {
        let _len = self.buf.len();
        let v = u32_from_le_bytes(slice_subrange(self.buf, self.pos, self.pos + 4));
        self.pos = self.pos + 4;
        v
    }

    pub fn read_u64(&mut self) -> (v: u64)
        requires
            old(self).pos() + 8 <= old(self).bytes().len(),
        ensures
            v == spec_u64_from_le_bytes(
                old(self).bytes().subrange(old(self).pos() as int, old(self).pos() + 8int),
            ),
            final(self).bytes() == old(self).bytes(),
            final(self).pos() == old(self).pos() + 8,
    {
        let _len = self.buf.len();
        let v = u64_from_le_bytes(slice_subrange(self.buf, self.pos, self.pos + 8));
        self.pos = self.pos + 8;
        v
    }

    /// Reads the next `n` bytes.
    pub fn read_bytes(&mut self, n: usize) -> (v: Vec<u8>)
        requires
            old(self).pos() + n <= old(self).bytes().len(),
        ensures
            v@ == old(self).bytes().subrange(old(self).pos() as int, old(self).pos() + n),
            final(self).bytes() == old(self).bytes(),
            final(self).pos() == old(self).pos() + n,
    {
        let _len = self.buf.len();
        let v = slice_to_vec(slice_subrange(self.buf, self.pos, self.pos + n));
        self.pos = self.pos + n;
        v
    }

    /// Reads `n` bytes at `pos` without moving the cursor.
    pub fn read_bytes_from(&self, pos: usize, n: usize) -> (v: Vec<u8>)
        requires
            pos + n <= self.bytes().len(),
        ensures
            v@ == self.bytes().subrange(pos as int, pos + n),
    {
        let _len = self.buf.len();
        slice_to_vec(slice_subrange(self.buf, pos, pos + n))
    }
}

/// An append-only byte buffer with little-endian integer writes.
pub struct Writer(Vec<u8>);

impl View for Writer {
    type V = Seq<u8>;

    closed spec fn view(&self) -> Seq<u8> {
        self.0@
    }
}

impl Writer {
    pub fn new() -> (w: Self)
        ensures
            w@ == Seq::<u8>::empty(),
    {
        Writer(Vec::new())
    }

    pub fn with_capacity(cap: usize) -> (w: Self)
        ensures
            w@ == Seq::<u8>::empty(),
    {
        Writer(Vec::with_capacity(cap))
    }

    pub fn position(&self) -> (p: usize)
        ensures
            p == self@.len(),
    {
        self.0.len()
    }

    /// Pads with zeros up to length `pos`; does nothing when already that long.
    pub fn seek(&mut self, pos: usize)
        ensures
            pos > old(self)@.len() ==> final(self)@ == old(self)@ + zeros((pos - old(self)@.len()) as nat),
            pos <= old(self)@.len() ==> final(self)@ == old(self)@,
    {
        if pos > self.0.len() {
            let ghost before = self.0@;
            self.0.resize(pos, 0u8);
            assert(self.0@ =~= before + zeros((pos - before.len()) as nat));
        }
    }

    /// Appends `len` zero bytes.
    pub fn skip(&mut self, len: usize)
        requires
            old(self)@.len() + len <= usize::MAX,
        ensures
            final(self)@ == old(self)@ + zeros(len as nat),
    {
        let ghost before = self.0@;
        let target = self.0.len() + len;
        self.0.resize(target, 0u8);
        assert(self.0@ =~= before + zeros(len as nat));
    }

    pub fn write_u8(&mut self, v: u8)
        ensures
            final(self)@ == old(self)@.push(v),
    {
        self.0.push(v);
    }

    pub fn write_u32(&mut self, v: u32)
        ensures
            final(self)@ == old(self)@ + spec_u32_to_le_bytes(v),
    {
        let bytes = u32_to_le_bytes(v);
        self.append_slice(bytes.as_slice());
    }

    pub fn write_u64(&mut self, v: u64)
        ensures
            final(self)@ == old(self)@ + spec_u64_to_le_bytes(v),
    {
        let bytes = u64_to_le_bytes(v);
        self.append_slice(bytes.as_slice());
    }

    /// Appends `data` as it is.
    pub fn write_bytes(&mut self, data: &[u8])
        ensures
            final(self)@ == old(self)@ + data@,
    {
        self.append_slice(data);
    }

    fn append_slice(&mut self, data: &[u8])
        ensures
            final(self)@ == old(self)@ + data@,
    {
        append_bytes(&mut self.0, data);
    }

    /// Overwrites the bytes at `pos` with `data`, keeping the length.
    pub fn write_bytes_at(&mut self, pos: usize, data: &[u8])
        requires
            pos + data@.len() <= old(self)@.len(),
        ensures
            final(self)@.len() == old(self)@.len(),
            final(self)@ == old(self)@.subrange(0, pos as int) + data@ + old(self)@.subrange(
                pos + data@.len(),
                old(self)@.len() as int,
            ),
    {
        let ghost before = self.0@;
        let total = self.0.len();
        let mut i: usize = 0;
        while i < data.len()
            invariant
                total == before.len(),
                pos + data@.len() <= before.len(),
                self.0@.len() == before.len(),
                0 <= i <= data@.len(),
                forall|k: int| 0 <= k < pos ==> self.0@[k] == before[k],
                forall|k: int| pos <= k < pos + i ==> self.0@[k] == data@[k - pos],
                forall|k: int| pos + i <= k < before.len() ==> self.0@[k] == before[k],
            decreases data@.len() - i,
        {
            self.0.set(pos + i, data[i]);
            i = i + 1;
        }
        assert(self.0@ =~= before.subrange(0, pos as int) + data@ + before.subrange(
            pos + data@.len(),
            before.len() as int,
        ));
    }

    pub fn as_slice(&self) -> (s: &[u8])
        ensures
            s@ == self@,
    {
        self.0.as_slice()
    }

    pub fn into_bytes(self) -> (v: Vec<u8>)
        ensures
            v@ == self@,
    {
        self.0
    }
}

/// Appends every byte of `data` to `buf`.
fn append_bytes(buf: &mut Vec<u8>, data: &[u8])
    ensures
        final(buf)@ == old(buf)@ + data@,
{
    let ghost before = buf@;
    let mut i: usize = 0;
    while i < data.len()
        invariant
            0 <= i <= data@.len(),
            buf@ == before + data@.subrange(0, i as int),
        decreases data@.len() - i,
    {
        buf.push(data[i]);
        i = i + 1;
        assert(buf@ =~= before + data@.subrange(0, i as int));
    }
    assert(data@.subrange(0, data@.len() as int) =~= data@);
}

pub fn write_u8(buf: &mut Vec<u8>, value: u8)
    ensures
        final(buf)@ == old(buf)@.push(value),
{
    buf.push(value);
}

pub fn write_u16(buf: &mut Vec<u8>, value: u16)
    ensures
        final(buf)@ == old(buf)@ + spec_u16_to_le_bytes(value),
{
    let bytes = u16_to_le_bytes(value);
    append_bytes(buf, bytes.as_slice());
}

pub fn write_u32(buf: &mut Vec<u8>, value: u32)
    ensures
        final(buf)@ == old(buf)@ + spec_u32_to_le_bytes(value),
{
    let bytes = u32_to_le_bytes(value);
    append_bytes(buf, bytes.as_slice());
}

pub fn write_u64(buf: &mut Vec<u8>, value: u64)
    ensures
        final(buf)@ == old(buf)@ + spec_u64_to_le_bytes(value),
{
    let bytes = u64_to_le_bytes(value);
    append_bytes(buf, bytes.as_slice());
}

pub fn write_bytes(buf: &mut Vec<u8>, value: &[u8])
    ensures
        final(buf)@ == old(buf)@ + value@,
{
    append_bytes(buf, value);
}

/// A number a writer appended reads back, from any bytes that hold what
/// was written, at the position where it was written.
pub proof fn lemma_written_u64_reads_back(before: Seq<u8>, v: u64, after: Seq<u8>)
    ensures
        spec_u64_from_le_bytes(
            (before + spec_u64_to_le_bytes(v) + after).subrange(before.len() as int, before.len() + 8int),
        ) == v,
{
    lemma_auto_spec_u64_to_from_le_bytes();
    assert((before + spec_u64_to_le_bytes(v) + after).subrange(before.len() as int, before.len() + 8int)
        =~= spec_u64_to_le_bytes(v));
}

/// The same for 32-bit numbers.
pub proof fn lemma_written_u32_reads_back(before: Seq<u8>, v: u32, after: Seq<u8>)
    ensures
        spec_u32_from_le_bytes(
            (before + spec_u32_to_le_bytes(v) + after).subrange(before.len() as int, before.len() + 4int),
        ) == v,
{
    lemma_auto_spec_u32_to_from_le_bytes();
    assert((before + spec_u32_to_le_bytes(v) + after).subrange(before.len() as int, before.len() + 4int)
        =~= spec_u32_to_le_bytes(v));
}

} // verus!
