use vstd::prelude::*;

verus! {

/// An access that would fall outside the window.
#[derive(Debug, PartialEq, Eq, Structural)]
pub enum RangeError {
    OutOfRange,
}

/// Where a seek goes: from the window's start, from its end, or from the
/// current position.
#[derive(Debug, Clone, Copy, PartialEq, Eq, Structural)]
pub enum SeekTarget {
    Start(u64),
    End(i64),
    Current(i64),
}

/// The half-open byte range `[start, end)` of an underlying store, with a
/// position relative to `start`. Every access through it is checked here.
#[derive(Debug, Clone, Copy, PartialEq, Eq, Structural)]
pub struct Window {
    pub start: u64,
    pub end: u64,
    pub pos: u64,
}

/// The relative position a seek asks for, before it is checked.
pub open spec fn seek_goal(w: Window, to: SeekTarget) -> int {
    match to {
        SeekTarget::Start(n) => n as int,
        SeekTarget::End(d) => (w.end - w.start) + d,
        SeekTarget::Current(d) => w.pos + d,
    }
}

impl Window {
    pub open spec fn wf(&self) -> bool {
        self.start <= self.end && self.pos <= self.end - self.start
    }

    pub open spec fn size(&self) -> int {
        self.end - self.start
    }

    /// A window over `[start, end)`, positioned at its start.
    pub fn new(start: u64, end: u64) -> (r: Window)
        requires
            start <= end,
        ensures
            r.wf(),
            r.start == start && r.end == end && r.pos == 0,
    {
        Window { start, end, pos: 0 }
    }

    /// The number of bytes in the window.
    pub fn len(&self) -> (r: u64)
        requires
            self.wf(),
        ensures
            r == self.size(),
    {
        self.end - self.start
    }

    /// Moves to a position inside the window or exactly at its end, and
    /// returns it; a goal before the start or past the end is refused and
    /// the position stays.
    pub fn seek(&mut self, to: SeekTarget) -> (r: Result<u64, RangeError>)
        requires
            old(self).wf(),
        ensures
            final(self).wf(),
            final(self).start == old(self).start && final(self).end == old(self).end,
            r is Ok <==> 0 <= seek_goal(*old(self), to) <= old(self).size(),
            r matches Ok(p) ==> p == seek_goal(*old(self), to) && final(self).pos == p,
            r is Err ==> *final(self) == *old(self),
    {
        let size = self.end - self.start;
        let goal: i128 = match to {
            SeekTarget::Start(n) => n as i128,
            SeekTarget::End(d) => size as i128 + d as i128,
            SeekTarget::Current(d) => self.pos as i128 + d as i128,
        };
        if goal < 0 || goal > size as i128 {
            return Err(RangeError::OutOfRange);
        }
        self.pos = goal as u64;
        Ok(self.pos)
    }

    /// The absolute offset in the underlying store at which `n` bytes are
    /// read or written from the current position; refused when they would
    /// reach past the end. An access that ends exactly at the end is allowed.
    pub fn span(&self, n: u64) -> (r: Result<u64, RangeError>)
        requires
            self.wf(),
        ensures
            r is Ok <==> self.pos + n <= self.size(),
            r matches Ok(a) ==> a == self.start + self.pos,
    {
        if n > self.end - self.start - self.pos {
            return Err(RangeError::OutOfRange);
        }
        Ok(self.start + self.pos)
    }

    /// Moves the position on by `n` bytes that were just read or written.
    pub fn advance(&mut self, n: u64)
        requires
            old(self).wf(),
            old(self).pos + n <= old(self).size(),
        ensures
            final(self).wf(),
            final(self).start == old(self).start && final(self).end == old(self).end,
            final(self).pos == old(self).pos + n,
    {
        self.pos = self.pos + n;
    }
}

} // verus!
