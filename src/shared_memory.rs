use vstd::prelude::*;

verus! {

/// What a `SharedMemory` holds: the whole byte buffer, and the offset at
/// which each open context begins, outermost first.
pub struct MemoryModel {
    pub buffer: Seq<u8>,
    pub checkpoints: Seq<usize>,
}

impl MemoryModel {
    pub open spec fn wf(self) -> bool {
        &&& forall|i: int| 0 <= i < self.checkpoints.len() ==> self.checkpoints[i] <= self.buffer.len()
        &&& forall|i: int, j: int|
            0 <= i <= j < self.checkpoints.len() ==> self.checkpoints[i] <= self.checkpoints[j]
    }

    /// Where the current context begins in the buffer.
    pub open spec fn base(self) -> int {
        if self.checkpoints.len() == 0 {
            0
        } else {
            self.checkpoints.last() as int
        }
    }

    /// The bytes of the current context.
    pub open spec fn context(self) -> Seq<u8> {
        self.buffer.subrange(self.base(), self.buffer.len() as int)
    }

    pub proof fn lemma_base_in_buffer(self)
        requires
            self.wf(),
        ensures
            0 <= self.base() <= self.buffer.len(),
    {
        if self.checkpoints.len() > 0 {
            assert(self.checkpoints[self.checkpoints.len() - 1] <= self.buffer.len());
        }
    }

    /// A new context that begins at the end of the buffer.
    pub open spec fn entered(self) -> MemoryModel {
        MemoryModel { buffer: self.buffer, checkpoints: self.checkpoints.push(self.buffer.len() as usize) }
    }

    /// The current context released: the buffer falls back to where it began.
    /// Without an open context nothing changes.
    pub open spec fn freed(self) -> MemoryModel {
        if self.checkpoints.len() == 0 {
            self
        } else {
            MemoryModel {
                buffer: self.buffer.subrange(0, self.checkpoints.last() as int),
                checkpoints: self.checkpoints.drop_last(),
            }
        }
    }

    /// The current context grown with zero bytes to `n` bytes, where it is shorter.
    pub open spec fn grown_to(self, n: int) -> MemoryModel {
        if n <= self.context().len() {
            self
        } else {
            MemoryModel {
                buffer: self.buffer + Seq::new((n - self.context().len()) as nat, |i: int| 0u8),
                checkpoints: self.checkpoints,
            }
        }
    }

    /// Byte `offset` of the current context set to `b`.
    pub open spec fn with_byte(self, offset: int, b: u8) -> MemoryModel {
        MemoryModel { buffer: self.buffer.update(self.base() + offset, b), checkpoints: self.checkpoints }
    }

    /// The `len` bytes of the current context from `offset`, or nothing where
    /// they do not all lie in it.
    pub open spec fn slice(self, offset: int, len: int) -> Seq<u8> {
        if offset + len <= self.context().len() {
            self.context().subrange(offset, offset + len)
        } else {
            Seq::empty()
        }
    }
}

/// One byte buffer for a whole call tree. Each frame works in its own
/// context, which begins where the buffer ended when the frame entered; when
/// the frame is done its context is released for the parent to reuse.
#[derive(Debug)]
pub struct SharedMemory {
    buffer: Vec<u8>,
    checkpoints: Vec<usize>,
}

impl View for SharedMemory {
    type V = MemoryModel;

    closed spec fn view(&self) -> MemoryModel {
        MemoryModel { buffer: self.buffer@, checkpoints: self.checkpoints@ }
    }
}

impl SharedMemory {
    /// An empty buffer with no open context.
    pub fn new() -> (r: SharedMemory)
        ensures
            r@.buffer == Seq::<u8>::empty(),
            r@.checkpoints == Seq::<usize>::empty(),
            r@.wf(),
    {
        SharedMemory { buffer: Vec::new(), checkpoints: Vec::new() }
    }

    /// The whole buffer, all contexts.
    pub fn buffer(&self) -> (r: &Vec<u8>)
        ensures
            r@ == self@.buffer,
    {
        &self.buffer
    }

    /// How many contexts are open.
    pub fn depth(&self) -> (r: usize)
        ensures
            r == self@.checkpoints.len(),
    {
        self.checkpoints.len()
    }

    /// Where the current context begins in the buffer.
    pub fn context_base(&self) -> (r: usize)
        ensures
            r == self@.base(),
    {
        if self.checkpoints.len() == 0 {
            0
        } else {
            self.checkpoints[self.checkpoints.len() - 1]
        }
    }

    /// Length of the current context.
    pub fn len(&self) -> (r: usize)
        requires
            self@.wf(),
        ensures
            r == self@.context().len(),
    {
        proof {
            self@.lemma_base_in_buffer();
        }
        self.buffer.len() - self.context_base()
    }

    /// Opens a context for a new frame at the end of the buffer.
    pub fn new_context(&mut self)
        requires
            old(self)@.wf(),
        ensures
            final(self)@ == old(self)@.entered(),
            final(self)@.wf(),
    {
        let len = self.buffer.len();
        self.checkpoints.push(len);
        assert(forall|i: int| 0 <= i < old(self)@.checkpoints.len() ==> old(self)@.checkpoints[i] <= len);
    }

    /// Releases the current context: the buffer is cut back to where it began
    /// and the parent's context is current again. Without an open context it
    /// does nothing.
    pub fn free_context_memory(&mut self)
        requires
            old(self)@.wf(),
        ensures
            final(self)@ == old(self)@.freed(),
            final(self)@.wf(),
    {
        match self.checkpoints.pop() {
            Some(c) => {
                proof {
                    let m = old(self)@;
                    assert forall|i: int| 0 <= i < self@.checkpoints.len() implies self@.checkpoints[i] <= c by {
                        assert(m.checkpoints[i] <= m.checkpoints[m.checkpoints.len() - 1]);
                    }
                    assert(c <= m.buffer.len());
                }
                self.buffer.truncate(c);
            },
            None => {},
        }
    }

    /// Grows the current context with zero bytes to `new_len` bytes, where it
    /// is shorter.
    pub fn resize(&mut self, new_len: usize)
        requires
            old(self)@.wf(),
            old(self)@.base() + new_len <= usize::MAX,
        ensures
            final(self)@ == old(self)@.grown_to(new_len as int),
            final(self)@.wf(),
    {
        let base = self.context_base();
        proof {
            old(self)@.lemma_base_in_buffer();
        }
        if new_len > self.buffer.len() - base {
            self.buffer.resize(base + new_len, 0u8);
            assert(self@.buffer =~= old(self)@.grown_to(new_len as int).buffer);
        }
    }

    /// Sets byte `offset` of the current context to `b`.
    pub fn set_byte(&mut self, offset: usize, b: u8)
        requires
            old(self)@.wf(),
            offset < old(self)@.context().len(),
        ensures
            final(self)@ == old(self)@.with_byte(offset as int, b),
            final(self)@.wf(),
    {
        let base = self.context_base();
        proof {
            old(self)@.lemma_base_in_buffer();
        }
        let buffer_len = self.buffer.len();
        assert(base + offset < buffer_len);
        self.buffer.set(base + offset, b);
    }

    /// A copy of the `len` bytes of the current context from `offset`; empty
    /// where they do not all lie in it.
    pub fn get_slice(&self, offset: usize, len: usize) -> (r: Vec<u8>)
        requires
            self@.wf(),
        ensures
            r@ == self@.slice(offset as int, len as int),
    {
        let base = self.context_base();
        proof {
            self@.lemma_base_in_buffer();
        }
        let ctx_len = self.buffer.len() - base;
        if offset > ctx_len || len > ctx_len - offset {
            return Vec::new();
        }
        let mut out: Vec<u8> = Vec::new();
        let mut i: usize = 0;
        while i < len
            invariant
                i <= len,
                offset + len <= ctx_len,
                base == self@.base(),
                base + ctx_len == self@.buffer.len(),
                self@.buffer.len() <= usize::MAX,
                ctx_len == self@.context().len(),
                out@ == self@.context().subrange(offset as int, offset + i),
            decreases len - i,
        {
            out.push(self.buffer[base + offset + i]);
            i = i + 1;
        }
        out
    }
}

} // verus!
