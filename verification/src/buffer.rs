//! The line buffer: the single source of truth for the logical line being
//! edited. It holds the full content, including a fixed leading prompt that
//! user edits never touch; every edit happens at or beyond the prompt's
//! length.
use vstd::prelude::*;

verus! {

/// An ordered, mutable sequence of bytes with an immutable prompt prefix.
pub struct LineBuffer {
    /// The full logical line, prompt included.
    pub content: Vec<u8>,
    /// Length of the fixed prompt prefix; edits only ever touch offsets at or
    /// beyond it.
    pub prompt_len: usize,
}

impl View for LineBuffer {
    type V = Seq<u8>;

    open spec fn view(&self) -> Seq<u8> {
        self.content@
    }
}

impl LineBuffer {
    /// The content is never shorter than the prompt it starts with.
    pub open spec fn wf(self) -> bool {
        self.prompt_len <= self.content@.len()
    }

    /// A fresh buffer holding exactly the prompt.
    pub fn new(prompt: &[u8]) -> (b: LineBuffer)
        ensures
            b.wf(),
            b@ == prompt@,
            b.prompt_len == prompt@.len(),
    {
        LineBuffer { content: vstd::slice::slice_to_vec(prompt), prompt_len: prompt.len() }
    }

    /// Number of bytes in the full logical line, prompt included.
    pub fn len(&self) -> (n: usize)
        ensures
            n == self@.len(),
    {
        self.content.len()
    }

    /// Inserts `b` at offset `at`, shifting everything after it one to the
    /// right. The offset must lie in the editable region.
    pub fn insert(&mut self, at: usize, b: u8)
        requires
            old(self).wf(),
            old(self).prompt_len <= at <= old(self)@.len(),
            old(self)@.len() < usize::MAX,
        ensures
            final(self).wf(),
            final(self)@ == old(self)@.insert(at as int, b),
            final(self).prompt_len == old(self).prompt_len,
    {
        self.content.insert(at, b);
    }

    /// Removes and returns the byte at offset `at`, shifting everything after
    /// it one to the left. The offset must lie in the editable region.
    pub fn remove(&mut self, at: usize) -> (b: u8)
        requires
            old(self).wf(),
            old(self).prompt_len <= at < old(self)@.len(),
        ensures
            final(self).wf(),
            b == old(self)@[at as int],
            final(self)@ == old(self)@.remove(at as int),
            final(self).prompt_len == old(self).prompt_len,
    {
        self.content.remove(at)
    }

    /// Ends the session: consumes the buffer and yields the content with the
    /// fixed prompt prefix stripped.
    pub fn into_input(self) -> (input: Vec<u8>)
        requires
            self.wf(),
        ensures
            input@ == self@.subrange(self.prompt_len as int, self@.len() as int),
    {
        let mut content = self.content;
        content.split_off(self.prompt_len)
    }
}

} // verus!
