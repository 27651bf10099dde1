use vstd::prelude::*;

verus! {

/// A linear byte buffer of fixed capacity.
///
/// Bytes are appended at `wpos` and taken from `rpos`; when a write does not
/// fit behind `wpos` but fits in the whole buffer, the unread bytes are first
/// moved to the front of the storage.
pub struct Buffer {
    store: Vec<u8>,
    rpos: usize,
    wpos: usize,
}

impl View for Buffer {
    /// The unread bytes, oldest first.
    type V = Seq<u8>;

    closed spec fn view(&self) -> Seq<u8> {
        self.store@.subrange(self.rpos as int, self.wpos as int)
    }
}

impl Buffer {
    /// The positions stay inside the storage, reads never overtake writes.
    pub closed spec fn wf(&self) -> bool {
        self.rpos <= self.wpos <= self.store@.len()
    }

    /// The number of bytes the buffer can hold.
    pub closed spec fn capacity(&self) -> nat {
        self.store@.len()
    }

    /// The number of bytes that can still be written.
    pub open spec fn room(&self) -> int {
        self.capacity() - self@.len()
    }

    /// A sound buffer holds at most its capacity.
    pub proof fn lemma_len_bound(&self)
        requires
            self.wf(),
        ensures
            self@.len() <= self.capacity(),
            0 <= self.room() <= self.capacity(),
    {
    }

    /// A buffer of `capacity` bytes with nothing in it.
    pub fn new(capacity: usize) -> (b: Buffer)
        ensures
            b.wf(),
            b@ == Seq::<u8>::empty(),
            b.capacity() == capacity,
    {
        let store: Vec<u8> = vec![0u8; capacity];
        let b = Buffer { store, rpos: 0, wpos: 0 };
        assert(b@ =~= Seq::<u8>::empty());
        b
    }

    /// Drops every unread byte.
    pub fn clear(&mut self)
        requires
            old(self).wf(),
        ensures
            final(self).wf(),
            final(self)@ == Seq::<u8>::empty(),
            final(self).capacity() == old(self).capacity(),
    {
        self.rpos = 0;
        self.wpos = 0;
        assert(self@ =~= Seq::<u8>::empty());
    }

    /// The number of unread bytes.
    pub fn available_read(&self) -> (n: usize)
        requires
            self.wf(),
        ensures
            n == self@.len(),
    {
        self.wpos - self.rpos
    }

    /// The number of bytes that can still be written.
    pub fn available_write(&self) -> (n: usize)
        requires
            self.wf(),
        ensures
            n == self.capacity() - self@.len(),
    {
        self.store.len() - self.wpos + self.rpos
    }

    /// The unread bytes, oldest first, without taking them.
    pub fn unread(&self) -> (s: &[u8])
        requires
            self.wf(),
        ensures
            s@ == self@,
    {
        vstd::slice::slice_subrange(self.store.as_slice(), self.rpos, self.wpos)
    }

    /// Takes the `n` oldest unread bytes.
    pub fn consume(&mut self, n: usize)
        requires
            old(self).wf(),
            n <= old(self)@.len(),
        ensures
            final(self).wf(),
            final(self)@ == old(self)@.skip(n as int),
            final(self).capacity() == old(self).capacity(),
    {
        self.rpos = self.rpos + n;
        assert(self@ =~= old(self)@.skip(n as int));
    }

    /// Moves the unread bytes to the front of the storage.
    fn discard_already_read_data(&mut self)
        requires
            old(self).wf(),
        ensures
            final(self).wf(),
            final(self)@ == old(self)@,
            final(self).capacity() == old(self).capacity(),
            final(self).rpos == 0,
    {
        let len = self.wpos - self.rpos;
        let rpos = self.rpos;
        let ghost unread = self@;
        let ghost old_store = self.store@;
        let mut i: usize = 0;
        while i < len
            invariant
                self.rpos == rpos,
                rpos + len == self.wpos,
                self.wpos <= self.store@.len(),
                self.store@.len() == old_store.len(),
                unread == old_store.subrange(rpos as int, rpos + len),
                i <= len,
                forall|j: int| 0 <= j < i ==> self.store@[j] == unread[j],
                forall|j: int| i <= j < self.store@.len() ==> self.store@[j] == old_store[j],
            decreases len - i,
        {
            let x = self.store[rpos + i];
            self.store.set(i, x);
            i = i + 1;
        }
        self.rpos = 0;
        self.wpos = len;
        assert(self@ =~= unread);
    }

    /// Appends all of `data` if it fits in the free space, else nothing.
    /// Returns the number of bytes written.
    pub fn write_all(&mut self, data: &[u8]) -> (n: usize)
        requires
            old(self).wf(),
        ensures
            final(self).wf(),
            final(self).capacity() == old(self).capacity(),
            data@.len() <= old(self).capacity() - old(self)@.len() ==> {
                &&& n == data@.len()
                &&& final(self)@ == old(self)@ + data@
            },
            data@.len() > old(self).capacity() - old(self)@.len() ==> {
                &&& n == 0
                &&& final(self)@ == old(self)@
            },
    {
        let count = data.len();
        if count > self.store.len() - self.wpos {
            if count > self.available_write() {
                return 0;
            }
            self.discard_already_read_data();
        }
        let wpos = self.wpos;
        let ghost before = self@;
        let ghost old_store = self.store@;
        let mut i: usize = 0;
        while i < count
            invariant
                self.rpos <= wpos,
                self.wpos == wpos,
                wpos + count <= self.store.len(),
                self.store@.len() == old_store.len(),
                count == data@.len(),
                before == old_store.subrange(self.rpos as int, wpos as int),
                i <= count,
                forall|j: int| 0 <= j < wpos ==> self.store@[j] == old_store[j],
                forall|j: int| 0 <= j < i ==> self.store@[wpos + j] == data@[j],
            decreases count - i,
        {
            self.store.set(wpos + i, data[i]);
            i = i + 1;
        }
        self.wpos = wpos + count;
        assert(self@ =~= before + data@);
        count
    }
}

} // verus!
