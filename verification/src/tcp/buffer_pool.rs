//! The free list behind the transfer buffer pool.

use vstd::prelude::*;

verus! {

/// Whether every byte of `b` is zero.
pub open spec fn all_zero(b: Seq<u8>) -> bool {
    forall|i: int| 0 <= i < b.len() ==> b[i] == 0
}

/// The buffers of a transfer pool: those that are free, every one holding
/// only zeros, and a count of those lent out.
pub struct SlotPool {
    slots: Vec<Vec<u8>>,
    size: usize,
    lent: usize,
}

impl SlotPool {
    /// The lengths of the free buffers, in order.
    pub closed spec fn lens(&self) -> Seq<nat> {
        Seq::new(self.slots@.len(), |i: int| self.slots@[i]@.len())
    }

    /// How many buffers the pool was made with.
    pub closed spec fn pool_size(&self) -> nat {
        self.size as nat
    }

    /// How many buffers are lent out.
    pub closed spec fn lent_count(&self) -> nat {
        self.lent as nat
    }

    /// Every free buffer is zeroed, and the free and the lent buffers
    /// together are the buffers the pool was made with.
    pub closed spec fn wf(&self) -> bool {
        &&& forall|i: int| 0 <= i < self.slots@.len() ==> all_zero(#[trigger] self.slots@[i]@)
        &&& self.slots@.len() + self.lent == self.size
    }

    /// `pool_size` zeroed buffers of `chunk_size` bytes.
    pub fn new(pool_size: usize, chunk_size: usize) -> (p: Self)
        requires
            pool_size > 0,
            chunk_size > 0,
        ensures
            p.wf(),
            p.lens() == Seq::new(pool_size as nat, |i: int| chunk_size as nat),
            p.pool_size() == pool_size,
            p.lent_count() == 0,
    {
        let mut slots: Vec<Vec<u8>> = Vec::new();
        let mut i: usize = 0;
        while i < pool_size
            invariant
                0 <= i <= pool_size,
                slots@.len() == i,
                forall|k: int| 0 <= k < i ==> all_zero(#[trigger] slots@[k]@) && slots@[k]@.len()
                    == chunk_size,
            decreases pool_size - i,
        {
            let mut buf: Vec<u8> = Vec::new();
            buf.resize(chunk_size, 0u8);
            slots.push(buf);
            i = i + 1;
        }
        let p = SlotPool { slots, size: pool_size, lent: 0 };
        assert(p.lens() =~= Seq::new(pool_size as nat, |i: int| chunk_size as nat));
        p
    }

    /// How many buffers are free.
    pub fn available(&self) -> (n: usize)
        ensures
            n == self.lens().len(),
    {
        self.slots.len()
    }

    /// How many buffers are lent out.
    pub fn lent(&self) -> (n: usize)
        ensures
            n == self.lent_count(),
    {
        self.lent
    }

    /// Takes the most recently returned free buffer, if any.
    pub fn take(&mut self) -> (buf: Option<Vec<u8>>)
        requires
            old(self).wf(),
        ensures
            final(self).wf(),
            final(self).pool_size() == old(self).pool_size(),
            old(self).lens().len() == 0 ==> buf is None && final(self).lens() == old(self).lens()
                && final(self).lent_count() == old(self).lent_count(),
            old(self).lens().len() > 0 ==> (buf matches Some(b) && all_zero(b@) && b@.len()
                == old(self).lens().last() && final(self).lens() == old(self).lens().drop_last()
                && final(self).lent_count() == old(self).lent_count() + 1),
    {
        let b = self.slots.pop();
        if b.is_some() {
            self.lent = self.lent + 1;
        }
        assert(self.lens() =~= old(self).lens().subrange(0, self.slots@.len() as int));
        b
    }

    /// Returns a lent buffer to the pool, zeroing it first.
    pub fn give_back(&mut self, buf: Vec<u8>)
        requires
            old(self).wf(),
            old(self).lent_count() > 0,
        ensures
            final(self).wf(),
            final(self).lens() == old(self).lens().push(buf@.len()),
            final(self).pool_size() == old(self).pool_size(),
            final(self).lent_count() == old(self).lent_count() - 1,
    {
        let mut buf = buf;
        let ghost len = buf@.len();
        let mut i: usize = 0;
        while i < buf.len()
            invariant
                buf@.len() == len,
                0 <= i <= len,
                forall|k: int| 0 <= k < i ==> buf@[k] == 0,
            decreases len - i,
        {
            buf.set(i, 0u8);
            i = i + 1;
        }
        self.slots.push(buf);
        self.lent = self.lent - 1;
        assert(self.lens() =~= old(self).lens().push(len));
    }
}

/// Every buffer of a pool is either free or lent out: the free buffers and
/// the lent ones always add up to the number the pool was made with.
pub proof fn lemma_pool_accounts_for_every_buffer(p: &SlotPool)
    requires
        p.wf(),
    ensures
        p.lens().len() + p.lent_count() == p.pool_size(),
{
}

} // verus!
