use vstd::prelude::*;

verus! {

/// A position in a borrowed byte buffer. The buffer is never copied.
pub struct Bytes<'a> {
    pub slice: &'a [u8],
    pub pos: usize,
}

impl<'a> Bytes<'a> {
    /// The position lies inside the buffer or at its end.
    pub open spec fn wf(&self) -> bool {
        self.pos <= self.slice@.len()
    }

    /// A cursor at the start of `slice`.
    #[inline]
    pub fn new(slice: &'a [u8]) -> (r: Self)
        ensures
            r.slice == slice,
            r.pos == 0,
            r.wf(),
    {
        Self { slice: slice, pos: 0 }
    }

    /// The byte at the position, which stays where it is.
    #[inline]
    pub fn peek(&self) -> (r: Option<u8>)
        ensures
            r == (if self.pos < self.slice@.len() {
                Some(self.slice@[self.pos as int])
            } else {
                None
            }),
    {
        if self.pos < self.slice.len() {
            Some(self.slice[self.pos])
        } else {
            None
        }
    }

    /// Steps over one byte that the caller has seen.
    #[inline]
    pub fn bump(&mut self)
        requires
            old(self).pos < old(self).slice@.len(),
        ensures
            final(self).slice == old(self).slice,
            final(self).pos == old(self).pos + 1,
            final(self).wf(),
    {
        proof {
            assert(self.slice.len() == self.slice@.len());
        }
        self.pos += 1;
    }

    /// The byte at the position, stepping over it; `None` at the end, where
    /// the position stays.
    #[inline]
    pub fn next(&mut self) -> (r: Option<u8>)
        ensures
            final(self).slice == old(self).slice,
            old(self).pos < old(self).slice@.len() ==> r == Some(
                old(self).slice@[old(self).pos as int],
            ) && final(self).pos == old(self).pos + 1,
            old(self).pos >= old(self).slice@.len() ==> r.is_none() && final(self).pos == old(self).pos,
    {
        if self.pos < self.slice.len() {
            let b: u8 = self.slice[self.pos];
            self.pos += 1;
            Some(b)
        } else {
            None
        }
    }

    /// The whole buffer, whatever the position.
    #[inline]
    pub fn as_ref(&self) -> (r: &'a [u8])
        ensures
            r == self.slice,
    {
        self.slice
    }

    /// The bytes of the buffer from `start` up to `end`, not copied.
    #[inline]
    pub fn index(&self, start: usize, end: usize) -> (r: &'a [u8])
        requires
            start <= end <= self.slice@.len(),
        ensures
            r@ == self.slice@.subrange(start as int, end as int),
    {
        vstd::slice::slice_subrange(self.slice, start, end)
    }
}

} // verus!
