//! Positions in two streams chained one after the other: where a position of
//! the chain lies, and where a seek leads.

use vstd::prelude::*;

verus! {

/// Where a seek starts from, and how far it goes.
#[derive(Debug, PartialEq, Eq, Structural, Clone, Copy)]
pub enum SeekFrom {
    /// From the start of the chain.
    Start(u64),
    /// From the end of the chain.
    End(i64),
    /// From the current position.
    Current(i64),
}

/// Where a position of the chain lies.
#[derive(Debug, PartialEq, Eq, Structural, Clone, Copy)]
pub enum Part {
    /// In the first stream, at this offset of it.
    First(u64),
    /// In the second stream, at this offset of it.
    Second(u64),
    /// At or past the end of the chain.
    End,
}

/// The lengths of two chained streams and the position in the chain.
#[derive(Debug, PartialEq, Eq, Structural, Clone, Copy)]
pub struct ChainedIO {
    pub len_first: u64,
    pub len_second: u64,
    pub pos: u64,
}

/// The position that a seek leads to, as an exact number.
pub open spec fn spec_target(total: int, pos: int, seek: SeekFrom) -> int {
    match seek {
        SeekFrom::Start(to) => to as int,
        SeekFrom::End(by) => total + by,
        SeekFrom::Current(by) => pos + by,
    }
}

impl ChainedIO {
    /// Whether the length of the chain fits in 64 bits.
    pub open spec fn wf(&self) -> bool {
        self.len_first + self.len_second <= u64::MAX
    }

    /// Where the position lies: in the first stream, in the second stream
    /// at the offset behind the first, or at the end.
    pub open spec fn spec_locate(&self) -> Part {
        if self.pos >= self.len_first + self.len_second {
            Part::End
        } else if self.pos < self.len_first {
            Part::First(self.pos)
        } else {
            Part::Second((self.pos - self.len_first) as u64)
        }
    }

    /// A chain of two streams of the given lengths, at its start.
    pub fn new(len_first: u64, len_second: u64) -> (chain: ChainedIO)
        ensures
            chain == (ChainedIO { len_first, len_second, pos: 0 }),
    {
        ChainedIO { len_first, len_second, pos: 0 }
    }

    /// The length of the chain.
    pub fn total_len(&self) -> (total: u64)
        requires
            self.wf(),
        ensures
            total == self.len_first + self.len_second,
    {
        self.len_first + self.len_second
    }

    /// Where the position lies: in the first stream, in the second stream
    /// at the offset behind the first, or at the end.
    pub fn locate(&self) -> (part: Part)
        requires
            self.wf(),
        ensures
            part == self.spec_locate(),
    {
        if self.pos >= self.total_len() {
            Part::End
        } else if self.pos < self.len_first {
            Part::First(self.pos)
        } else {
            Part::Second(self.pos - self.len_first)
        }
    }

    /// Moves the position forward by the number of bytes that were read or
    /// written; `false`, and no move, if the position would not fit in 64
    /// bits.
    pub fn advance(&mut self, by: u64) -> (moved: bool)
        ensures
            moved == (old(self).pos + by <= u64::MAX),
            final(self).len_first == old(self).len_first,
            final(self).len_second == old(self).len_second,
            final(self).pos == if moved {
                (old(self).pos + by) as u64
            } else {
                old(self).pos
            },
    {
        if by <= u64::MAX - self.pos {
            self.pos = self.pos + by;
            true
        } else {
            false
        }
    }

    /// Moves the position: to an offset from the start, from the end or
    /// from where it is. A position before the start or beyond 64 bits is
    /// an error and moves nothing. A position past the end is allowed.
    pub fn seek(&mut self, pos: SeekFrom) -> (res: Result<u64, ()>)
        requires
            old(self).wf(),
        ensures
            final(self).len_first == old(self).len_first,
            final(self).len_second == old(self).len_second,
            ({
                let target = spec_target(
                    old(self).len_first + old(self).len_second,
                    old(self).pos as int,
                    pos,
                );
                if 0 <= target <= u64::MAX {
                    res == Ok::<u64, ()>(target as u64) && final(self).pos == target
                } else {
                    res == Err::<u64, ()>(()) && final(self).pos == old(self).pos
                }
            }),
    {
        let total: i128 = self.total_len() as i128;
        let target: i128 = match pos {
            SeekFrom::Start(to) => to as i128,
            SeekFrom::End(by) => total + by as i128,
            SeekFrom::Current(by) => self.pos as i128 + by as i128,
        };
        if target < 0 || target > u64::MAX as i128 {
            Err(())
        } else {
            self.pos = target as u64;
            Ok(self.pos)
        }
    }
}

} // verus!
